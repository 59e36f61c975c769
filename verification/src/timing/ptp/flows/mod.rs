pub mod bmca;
pub mod slave;
