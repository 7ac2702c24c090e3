pub mod connector_manager;
