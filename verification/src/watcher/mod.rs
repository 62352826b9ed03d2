pub mod watcher_fbt_info;
