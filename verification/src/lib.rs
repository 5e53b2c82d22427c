//! Persistence core of a small directed-graph viewer.
//!
//! A graph of people and their relationships lives in memory as a
//! `petgraph::Graph` whose nodes are addressed by positional handles. Those
//! handles mean nothing outside the process, so the durable form of a graph
//! is a flat document in which every edge names its endpoints by the stable
//! id that the caller gave each node. This crate converts between the two and
//! proves what the conversion keeps.

pub mod graph;
pub mod models;
pub mod resource;
pub mod round_trip;
pub mod store;
