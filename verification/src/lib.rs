//! A verified core for a node-based editor of messaging-bot menus.
//!
//! The library owns the graph of typed nodes and connections, the bounded
//! undo/redo history over whole-graph snapshots, the parameter coercion
//! rules, and the tree builder that projects the flat graph into a nested
//! menu document and back.  Rendering and I/O live outside the library.

pub mod export;
pub mod history;
pub mod import;
pub mod json;
pub mod laws;
pub mod model;
pub mod node;
pub mod ops;
pub mod render;
pub mod round_trip;
pub mod ui_state;
pub mod seqs;
pub mod store;

pub use model::{Parameter, ParameterType, ParameterValue, Port, PortType};
pub use node::{Connection, Node, NodeType, Point, Size};
pub use history::{GraphSnapshot, HistoryManager};
pub use ops::GraphOperations;
pub use store::SimpleNodeGraph;
pub use export::{BotMenuConfig, Document, FaqItem, MenuItem};
pub use import::DataImporter;
pub use render::GraphRenderer;
pub use ui_state::{MenuBar, Tab, Tabs};
