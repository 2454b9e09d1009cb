pub mod hostname;
pub mod outcome;
pub mod aggregate;
pub mod report;
pub mod jsonval;
pub mod sources;
