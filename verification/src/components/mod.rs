pub mod admin;
pub mod category_list;
