//! What holds of the bridge whatever it is given: how the results of its operations relate to what
//! goes in, and to each other.
pub mod browsers;
pub mod choices;
pub mod confines;
pub mod delegation;
pub mod drivers;
pub mod pages;
pub mod records;
pub mod reports;
pub mod requests;
pub mod reservations;
pub mod routing;
pub mod serving;
pub mod setups;
pub mod starts;
pub mod streams;
pub mod texts;
pub mod words;
