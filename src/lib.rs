//! Equation synchronisation and parameter lifecycle for biochemical
//! reaction models: deriving ODE right-hand sides from a reaction network,
//! reconciling the document's parameters with the symbols its equations use,
//! and recalling retired parameters from a bounded buffer. Around that core:
//! editing species, reactions, equations and parameters, fresh identifiers,
//! and the decisions of the notebook and model-context tooling.

pub mod equations;
pub mod expression;
pub mod ids;
pub mod jupyter;
pub mod mcp;
pub mod model;
pub mod numeral;
pub mod parameters;
pub mod reactions;
pub mod species;
pub mod stringarray;
pub mod text;
pub mod units;
pub mod validation;
