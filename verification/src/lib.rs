//! Reasoning controls of GLM-5.3 requests on Zhipu's own endpoints.
//!
//! GLM-5.3 always thinks. Zhipu's API takes `thinking.type = "enabled"` and
//! one of three effort tiers, `low`, `high` and `max`. Clients send a wider
//! set of controls (switches, token budgets, tiers of other vendors). This
//! library reads what the client asked for and rewrites an outbound request
//! so that it holds only what the API takes.
//!
//! * [`text`]: white space, ASCII case and suffixes of strings.
//! * [`json`]: what a `serde_json::Value` holds, and the calls on it.
//! * [`detect`]: which models and which gateways are concerned.
//! * [`effort`]: the three tiers, and the words and budgets that mean them.
//! * [`intent`]: what a request asks for.
//! * [`request`]: the rewriting of a request.
//! * [`behaviour`]: what each operation does, by characters and members.
//! * [`laws`]: what holds of all of these together.

pub mod behaviour;
pub mod detect;
pub mod effort;
pub mod intent;
pub mod json;
pub mod laws;
pub mod request;
pub mod text;

pub use detect::{is_direct_zhipu_gateway, is_glm_5_3_model, is_zhipu_host};
pub use effort::{budget_to_effort, map_effort, Glm53Effort};
pub use intent::{capture_glm_5_3_reasoning_intent, merge_intent, Glm53ReasoningIntent};
pub use request::{normalize_direct_zhipu_glm_5_3_request, normalize_glm_5_3_request};
