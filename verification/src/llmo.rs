//! Validation, explanation, and multi-target compilation ("LLMO").

use vstd::prelude::*;
use crate::amount::amount_text;
use crate::error::Error;
use crate::lines::seq_views;
use crate::model::{ConditionDefinition, UCLContract};
use crate::text::{json_escape, push_json_escaped, str_eq};

verus! {

/// The outcome of validating a contract: fatal errors and advisory warnings.
#[derive(Debug, Clone, PartialEq)]
pub struct ValidationResult {
    pub valid: bool,
    pub errors: Vec<String>,
    pub warnings: Vec<String>,
}

/// The validation, explanation and compilation engine.
#[derive(Debug, Clone, Copy, PartialEq, Eq, Structural)]
pub struct LLMOEngine {
}

/// The errors validation reports, in order: a missing contract id, a missing
/// version, a negative payment amount.
pub open spec fn validate_errors(c: UCLContract) -> Seq<Seq<char>> {
    (if c.contract_id@.len() == 0 {
        seq!["contract_id is required"@]
    } else {
        Seq::<Seq<char>>::empty()
    }) + (if c.version@.len() == 0 {
        seq!["version is required"@]
    } else {
        Seq::<Seq<char>>::empty()
    }) + (if c.payment.amount@ < 0 {
        seq!["payment amount cannot be negative"@]
    } else {
        Seq::<Seq<char>>::empty()
    })
}

/// The warnings validation reports, in order: a missing title, a missing
/// plain-English summary, a missing currency.
pub open spec fn validate_warnings(c: UCLContract) -> Seq<Seq<char>> {
    (if c.summary.title@.len() == 0 {
        seq!["title should be provided"@]
    } else {
        Seq::<Seq<char>>::empty()
    }) + (if c.summary.plain_english@.len() == 0 {
        seq!["plain_english summary should be provided"@]
    } else {
        Seq::<Seq<char>>::empty()
    }) + (if c.payment.currency@.len() == 0 {
        seq!["currency should be specified"@]
    } else {
        Seq::<Seq<char>>::empty()
    })
}

/// Whether a contract passes validation: a contract id, a version, and a
/// non-negative amount.
pub open spec fn is_valid_contract(c: UCLContract) -> bool {
    c.contract_id@.len() > 0 && c.version@.len() > 0 && c.payment.amount@ >= 0
}

/// The heading of an explanation: title and plain-English summary.
pub open spec fn explain_head(c: UCLContract) -> Seq<char> {
    "# "@ + c.summary.title@ + "\n\n"@ + c.summary.plain_english@ + "\n\n"@
}

/// The contract-details section of an explanation.
pub open spec fn explain_details(c: UCLContract) -> Seq<char> {
    "## Contract Details\n\n- **Type**: "@ + c.metadata.contract_type@ + "\n- **Category**: "@
        + c.metadata.category@ + "\n- **Effective Date**: "@ + c.metadata.dates.effective@
        + "\n- **Duration**: "@ + c.metadata.dates.duration@ + "\n\n"@
}

/// The payment-terms section of an explanation.
pub open spec fn explain_payment(c: UCLContract) -> Seq<char> {
    "## Payment Terms\n\n- **Amount**: "@ + amount_text(c.payment.amount@) + " "@
        + c.payment.currency@ + "\n- **Token**: "@ + c.payment.token@ + "\n- **Network**: "@
        + c.payment.blockchain@ + "\n- **Frequency**: "@ + c.payment.frequency@ + "\n\n"@
}

/// One bullet line per required condition.
pub open spec fn condition_lines(cs: Seq<ConditionDefinition>) -> Seq<char>
    decreases cs.len(),
{
    if cs.len() == 0 {
        Seq::<char>::empty()
    } else {
        condition_lines(cs.drop_last()) + "- "@ + cs.last().description@ + "\n"@
    }
}

/// The conditions section of an explanation; omitted when there is no
/// required condition.
pub open spec fn explain_conditions(c: UCLContract) -> Seq<char> {
    if c.conditions.required@.len() == 0 {
        Seq::<char>::empty()
    } else {
        "## Conditions\n\n"@ + condition_lines(c.conditions.required@) + "\n"@
    }
}

/// The full explanation of a contract: a deterministic narrative in fixed
/// section order, a function of the contract value alone.
pub open spec fn explain_text(c: UCLContract) -> Seq<char> {
    explain_head(c) + explain_details(c) + explain_payment(c) + explain_conditions(c)
}

impl Default for LLMOEngine {
    /// The engine carries no state.
    fn default() -> (r: LLMOEngine)
        ensures
            r == (LLMOEngine {  }),
    {
        LLMOEngine {  }
    }
}

impl LLMOEngine {
    /// Create a new engine.
    pub fn new() -> (r: LLMOEngine)
        ensures
            r == (LLMOEngine {  }),
    {
        LLMOEngine {  }
    }

    /// Validate a contract: the result is valid exactly when the contract id
    /// and version are present and the payment amount is not negative, and
    /// the error and warning lists are exactly the defined ones.
    pub fn validate(&self, ucl: &UCLContract) -> (r: Result<ValidationResult, Error>)
        ensures
            r is Ok,
            r matches Ok(v) ==> {
                &&& v.valid == is_valid_contract(*ucl)
                &&& seq_views(v.errors@) == validate_errors(*ucl)
                &&& seq_views(v.warnings@) == validate_warnings(*ucl)
                &&& v.valid == (v.errors@.len() == 0)
            },
    {
        let mut errors: Vec<String> = Vec::new();
        let mut warnings: Vec<String> = Vec::new();
        if ucl.contract_id.as_str().unicode_len() == 0 {
            errors.push(String::from_str("contract_id is required"));
        }
        if ucl.version.as_str().unicode_len() == 0 {
            errors.push(String::from_str("version is required"));
        }
        if ucl.summary.title.as_str().unicode_len() == 0 {
            warnings.push(String::from_str("title should be provided"));
        }
        if ucl.summary.plain_english.as_str().unicode_len() == 0 {
            warnings.push(String::from_str("plain_english summary should be provided"));
        }
        if ucl.payment.amount.is_negative() {
            errors.push(String::from_str("payment amount cannot be negative"));
        }
        if ucl.payment.currency.as_str().unicode_len() == 0 {
            warnings.push(String::from_str("currency should be specified"));
        }
        let valid = errors.len() == 0;
        proof {
            assert(seq_views(errors@) =~= validate_errors(*ucl));
            assert(seq_views(warnings@) =~= validate_warnings(*ucl));
        }
        Ok(ValidationResult { valid, errors, warnings })
    }

    /// Render the explanation of a contract. The result is a function of the
    /// contract value alone, so repeated calls yield identical text.
    pub fn explain(&self, ucl: &UCLContract) -> (r: Result<String, Error>)
        ensures
            r is Ok,
            r matches Ok(s) ==> s@ == explain_text(*ucl),
    {
        let mut out = String::new();
        out.append("# ");
        out.append(ucl.summary.title.as_str());
        out.append("\n\n");
        out.append(ucl.summary.plain_english.as_str());
        out.append("\n\n");
        proof {
            assert(out@ =~= explain_head(*ucl));
        }
        out.append("## Contract Details\n\n- **Type**: ");
        out.append(ucl.metadata.contract_type.as_str());
        out.append("\n- **Category**: ");
        out.append(ucl.metadata.category.as_str());
        out.append("\n- **Effective Date**: ");
        out.append(ucl.metadata.dates.effective.as_str());
        out.append("\n- **Duration**: ");
        out.append(ucl.metadata.dates.duration.as_str());
        out.append("\n\n");
        proof {
            assert(out@ =~= explain_head(*ucl) + explain_details(*ucl));
        }
        out.append("## Payment Terms\n\n- **Amount**: ");
        let amt = ucl.payment.amount.render();
        out.append(amt.as_str());
        out.append(" ");
        out.append(ucl.payment.currency.as_str());
        out.append("\n- **Token**: ");
        out.append(ucl.payment.token.as_str());
        out.append("\n- **Network**: ");
        out.append(ucl.payment.blockchain.as_str());
        out.append("\n- **Frequency**: ");
        out.append(ucl.payment.frequency.as_str());
        out.append("\n\n");
        proof {
            assert(out@ =~= explain_head(*ucl) + explain_details(*ucl) + explain_payment(*ucl));
        }
        if ucl.conditions.required.len() > 0 {
            out.append("## Conditions\n\n");
            let mut i: usize = 0;
            let base = Ghost(out@);
            while i < ucl.conditions.required.len()
                invariant
                    0 <= i <= ucl.conditions.required@.len(),
                    out@ == base@ + condition_lines(ucl.conditions.required@.take(i as int)),
                decreases ucl.conditions.required@.len() - i,
            {
                out.append("- ");
                out.append(ucl.conditions.required[i].description.as_str());
                out.append("\n");
                proof {
                    let cs = ucl.conditions.required@;
                    assert(cs.take(i + 1).drop_last() =~= cs.take(i as int));
                    assert(cs.take(i + 1).last() == cs[i as int]);
                    assert(out@ =~= base@ + condition_lines(cs.take(i + 1)));
                }
                i = i + 1;
            }
            out.append("\n");
            proof {
                let cs = ucl.conditions.required@;
                assert(cs.take(cs.len() as int) =~= cs);
                assert(out@ =~= explain_text(*ucl));
            }
        } else {
            proof {
                assert(out@ =~= explain_text(*ucl));
            }
        }
        Ok(out)
    }

    /// Compile a contract to a supported target language; an unrecognized
    /// target always fails with a `CompilationError` naming it.
    pub fn compile(&self, ucl: &UCLContract, target: &str) -> (r: Result<String, Error>)
        ensures
            target@ == "solidity"@ ==> (r matches Ok(s) && s@ == solidity_text(*ucl)),
            target@ == "javascript"@ ==> (r matches Ok(s) && s@ == javascript_text(*ucl)),
            target@ == "rust"@ ==> (r matches Ok(s) && s@ == rust_text(*ucl)),
            target@ != "solidity"@ && target@ != "javascript"@ && target@ != "rust"@ ==> (
            r matches Err(e) && e matches Error::CompilationError(m) && m@
                == "Unsupported target: "@ + target@),
    {
        proof {
            reveal_strlit("solidity");
            reveal_strlit("javascript");
            reveal_strlit("rust");
            assert("solidity"@.len() == 8);
            assert("javascript"@.len() == 10);
            assert("rust"@.len() == 4);
        }
        if str_eq(target, "solidity") {
            Ok(self.compile_solidity(ucl))
        } else if str_eq(target, "javascript") {
            Ok(self.compile_javascript(ucl))
        } else if str_eq(target, "rust") {
            Ok(self.compile_rust(ucl))
        } else {
            let mut m = String::from_str("Unsupported target: ");
            m.append(target);
            Err(Error::CompilationError(m))
        }
    }

    /// Render the Solidity boilerplate for a contract.
    fn compile_solidity(&self, ucl: &UCLContract) -> (r: String)
        ensures
            r@ == solidity_text(*ucl),
    {
        let mut out = String::new();
        out.append("// SPDX-License-Identifier: MIT\npragma solidity ^0.8.0;\n\n/**\n * ");
        push_json_escaped(&mut out, ucl.summary.title.as_str());
        out.append("\n * ");
        push_json_escaped(&mut out, ucl.summary.plain_english.as_str());
        out.append(
            "\n */\ncontract Smart402Contract {\n    address public owner;\n    uint256 public paymentAmount;\n    address public paymentToken;\n\n    constructor(address _token) {\n        owner = msg.sender;\n        paymentAmount = ",
        );
        proof {
            assert(out@ =~= solidity_prefix(*ucl));
        }
        let amt = ucl.payment.amount.render();
        out.append(amt.as_str());
        out.append(
            " * 10**18;\n        paymentToken = _token;\n    }\n\n    function executePayment() public payable {\n        require(msg.value >= paymentAmount, \"Insufficient payment\");\n        // Payment logic here\n    }\n}\n",
        );
        proof {
            assert(out@ =~= solidity_text(*ucl));
        }
        out
    }

    /// Render the JavaScript boilerplate for a contract.
    fn compile_javascript(&self, ucl: &UCLContract) -> (r: String)
        ensures
            r@ == javascript_text(*ucl),
    {
        let mut out = String::new();
        out.append("/**\n * ");
        push_json_escaped(&mut out, ucl.summary.title.as_str());
        out.append("\n * ");
        push_json_escaped(&mut out, ucl.summary.plain_english.as_str());
        out.append(
            "\n */\nclass Smart402Contract {\n  constructor() {\n    this.paymentAmount = ",
        );
        proof {
            assert(out@ =~= javascript_prefix(*ucl));
        }
        let amt = ucl.payment.amount.render();
        out.append(amt.as_str());
        out.append(";\n    this.paymentToken = \"");
        push_json_escaped(&mut out, ucl.payment.token.as_str());
        out.append("\";\n    this.network = \"");
        push_json_escaped(&mut out, ucl.payment.blockchain.as_str());
        out.append(
            "\";\n  }\n\n  async executePayment() {\n    // Payment execution logic\n    return {\n      success: true,\n      amount: this.paymentAmount,\n      token: this.paymentToken\n    };\n  }\n}\n\nmodule.exports = Smart402Contract;\n",
        );
        proof {
            assert(out@ =~= javascript_text(*ucl));
        }
        out
    }

    /// Render the Rust boilerplate for a contract.
    fn compile_rust(&self, ucl: &UCLContract) -> (r: String)
        ensures
            r@ == rust_text(*ucl),
    {
        let mut out = String::new();
        out.append("/// ");
        push_json_escaped(&mut out, ucl.summary.title.as_str());
        out.append("\n/// ");
        push_json_escaped(&mut out, ucl.summary.plain_english.as_str());
        out.append(
            "\npub struct Smart402Contract {\n    pub payment_amount: f64,\n    pub payment_token: String,\n    pub network: String,\n}\n\nimpl Smart402Contract {\n    pub fn new() -> Self {\n        Self {\n            payment_amount: ",
        );
        proof {
            assert(out@ =~= rust_prefix(*ucl));
        }
        let amt = ucl.payment.amount.render();
        out.append(amt.as_str());
        out.append(",\n            payment_token: \"");
        push_json_escaped(&mut out, ucl.payment.token.as_str());
        out.append("\".to_string(),\n            network: \"");
        push_json_escaped(&mut out, ucl.payment.blockchain.as_str());
        out.append(
            "\".to_string(),\n        }\n    }\n\n    pub async fn execute_payment(&self) -> Result<PaymentResult> {\n        // Payment execution logic\n        Ok(PaymentResult {\n            success: true,\n            amount: self.payment_amount,\n            token: self.payment_token.clone(),\n        })\n    }\n}\n",
        );
        proof {
            assert(out@ =~= rust_text(*ucl));
        }
        out
    }
}

/// What precedes the payment amount in the Solidity rendering.
pub open spec fn solidity_prefix(c: UCLContract) -> Seq<char> {
    "// SPDX-License-Identifier: MIT\npragma solidity ^0.8.0;\n\n/**\n * "@ + json_escape(
        c.summary.title@,
    ) + "\n * "@ + json_escape(c.summary.plain_english@)
        + "\n */\ncontract Smart402Contract {\n    address public owner;\n    uint256 public paymentAmount;\n    address public paymentToken;\n\n    constructor(address _token) {\n        owner = msg.sender;\n        paymentAmount = "@
}

/// The Solidity rendering of a contract.
pub open spec fn solidity_text(c: UCLContract) -> Seq<char> {
    solidity_prefix(c) + amount_text(c.payment.amount@)
        + " * 10**18;\n        paymentToken = _token;\n    }\n\n    function executePayment() public payable {\n        require(msg.value >= paymentAmount, \"Insufficient payment\");\n        // Payment logic here\n    }\n}\n"@
}

/// What precedes the payment amount in the JavaScript rendering.
pub open spec fn javascript_prefix(c: UCLContract) -> Seq<char> {
    "/**\n * "@ + json_escape(c.summary.title@) + "\n * "@ + json_escape(c.summary.plain_english@)
        + "\n */\nclass Smart402Contract {\n  constructor() {\n    this.paymentAmount = "@
}

/// The JavaScript rendering of a contract.
pub open spec fn javascript_text(c: UCLContract) -> Seq<char> {
    javascript_prefix(c) + amount_text(c.payment.amount@) + ";\n    this.paymentToken = \""@
        + json_escape(c.payment.token@) + "\";\n    this.network = \""@ + json_escape(
        c.payment.blockchain@,
    )
        + "\";\n  }\n\n  async executePayment() {\n    // Payment execution logic\n    return {\n      success: true,\n      amount: this.paymentAmount,\n      token: this.paymentToken\n    };\n  }\n}\n\nmodule.exports = Smart402Contract;\n"@
}

/// What precedes the payment amount in the Rust rendering.
pub open spec fn rust_prefix(c: UCLContract) -> Seq<char> {
    "/// "@ + json_escape(c.summary.title@) + "\n/// "@ + json_escape(c.summary.plain_english@)
        + "\npub struct Smart402Contract {\n    pub payment_amount: f64,\n    pub payment_token: String,\n    pub network: String,\n}\n\nimpl Smart402Contract {\n    pub fn new() -> Self {\n        Self {\n            payment_amount: "@
}

/// The Rust rendering of a contract.
pub open spec fn rust_text(c: UCLContract) -> Seq<char> {
    rust_prefix(c) + amount_text(c.payment.amount@) + ",\n            payment_token: \""@
        + json_escape(c.payment.token@) + "\".to_string(),\n            network: \""@
        + json_escape(c.payment.blockchain@)
        + "\".to_string(),\n        }\n    }\n\n    pub async fn execute_payment(&self) -> Result<PaymentResult> {\n        // Payment execution logic\n        Ok(PaymentResult {\n            success: true,\n            amount: self.payment_amount,\n            token: self.payment_token.clone(),\n        })\n    }\n}\n"@
}

/// Explanation is deterministic: any two renderings of the same contract
/// are byte-identical, because each one equals `explain_text` of the
/// contract value alone.
pub proof fn lemma_explain_deterministic(c: UCLContract, r1: Seq<char>, r2: Seq<char>)
    requires
        r1 == explain_text(c),
        r2 == explain_text(c),
    ensures
        r1 == r2,
{
}

/// Whether `needle` occurs contiguously in `hay`.
pub open spec fn contains_seq(hay: Seq<char>, needle: Seq<char>) -> bool {
    exists|i: int|
        0 <= i && i + needle.len() <= hay.len() && #[trigger] hay.subrange(i, i + needle.len())
            == needle
}

/// Every supported target embeds the exact decimal payment amount in its
/// output.
pub proof fn lemma_compiled_output_embeds_amount(c: UCLContract)
    ensures
        contains_seq(solidity_text(c), amount_text(c.payment.amount@)),
        contains_seq(javascript_text(c), amount_text(c.payment.amount@)),
        contains_seq(rust_text(c), amount_text(c.payment.amount@)),
{
    let a = amount_text(c.payment.amount@);
    let si = solidity_prefix(c).len() as int;
    assert(solidity_text(c).subrange(si, si + a.len() as int) =~= a);
    let ji = javascript_prefix(c).len() as int;
    assert(javascript_text(c).subrange(ji, ji + a.len() as int) =~= a);
    let ri = rust_prefix(c).len() as int;
    assert(rust_text(c).subrange(ri, ri + a.len() as int) =~= a);
}

} // verus!
