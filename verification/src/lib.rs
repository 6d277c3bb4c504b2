use vstd::prelude::*;

pub mod date;
mod text;
pub mod parser;
pub mod multi_list;
pub mod table_widget;
pub mod components;
pub mod ui_navigation;
pub mod action;
pub mod task;
pub mod task_order;
pub mod event;
pub mod config;
pub mod keys;
pub mod style;
pub mod sorting;
pub mod event_manager;
pub mod task_manager;
pub mod editor;
pub mod storage;
pub mod sample;
pub mod calendar_view;
pub mod day_list;
pub mod tags_view;
pub mod task_view;
pub mod app_state;
pub mod info_views;
pub mod date_input;
pub mod date_text;
pub mod calendar_widget;
pub mod prompts;

verus! {
}
