//! Core of the app controller: the data model of apps and their containers,
//! the encoding of an app into container labels and Kubernetes annotations,
//! the plans that the Docker and Kubernetes backends carry out, and the
//! mapping of backend results to API responses.
pub mod types;
pub mod text;
pub mod labels;
pub mod backend;
pub mod api;
