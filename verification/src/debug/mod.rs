pub mod instrumentation;
pub mod registers_widget;
