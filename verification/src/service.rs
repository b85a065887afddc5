pub mod employee;
