pub mod device_list;
pub mod panels;
pub mod settings;
