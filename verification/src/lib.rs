pub mod calendar;
pub mod clock;
pub mod codec;
pub mod entropy;
pub mod farm;
pub mod hub;
pub mod number;
pub mod rows;
pub mod table;
pub mod text;
