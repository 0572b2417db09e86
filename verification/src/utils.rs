pub mod thread_utils;
