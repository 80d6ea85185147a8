# glm_reasoning

GLM-5.3 always thinks: Zhipu's API takes `thinking.type = "enabled"` and one of
the effort tiers `low`, `high` and `max`. This library reads the reasoning
controls of a client's request, whatever wire format they come in, and rewrites
a request that goes to one of Zhipu's own endpoints so that it holds only what
the API takes. Every other request stays as it is.

The library is written in Verus. Each function carries a contract, stated over
`json::Json`, the mathematical value that a `serde_json::Value` holds.
`laws.rs` proves what follows for the library as a whole: that a rewritten
request is legal, that members beside the controls stay, that a second pass
changes nothing, and which names are taken for the model.

What is believed without proof stands in `text.rs` (string functions of the
standard library), `json.rs` (`serde_json`) and `detect.rs` (`url`), each with
a comment that says what it claims.
