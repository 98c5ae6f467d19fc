//! Discoverability scoring ("AEO") and structured-data markup.
//!
//! Scores are exact fixed-point fractions of one: a sub-score is counted in
//! hundredths, the weighted total in ten-thousandths, so a total of 10000
//! means a perfect score of 1. The weight table is a fixed policy constant.

use vstd::prelude::*;
use crate::error::Error;
use crate::model::UCLContract;
use crate::text::{json_escape, push_json_escaped, str_eq};

verus! {

/// Weight of semantic richness, in hundredths.
pub const W_SEMANTIC: u32 = 25;

/// Weight of citation friendliness, in hundredths.
pub const W_CITATION: u32 = 20;

/// Weight of findability, in hundredths.
pub const W_FINDABILITY: u32 = 25;

/// Weight of authority signals, in hundredths.
pub const W_AUTHORITY: u32 = 15;

/// Weight of citation presence, in hundredths.
pub const W_PRESENCE: u32 = 15;

/// A discoverability score. Sub-scores are in hundredths of one, the total
/// in ten-thousandths of one.
#[derive(Debug, Clone, Copy, PartialEq, Eq, Structural)]
pub struct AEOScore {
    pub total: u32,
    pub semantic_richness: u32,
    pub citation_friendliness: u32,
    pub findability: u32,
    pub authority_signals: u32,
    pub citation_presence: u32,
}

/// The discoverability scoring engine.
#[derive(Debug, Clone, Copy, PartialEq, Eq, Structural)]
pub struct AEOEngine {
}

/// Whether a contract id carries the recognized namespace prefix.
pub open spec fn has_namespace_prefix(id: Seq<char>) -> bool {
    id.len() >= 9 && id.take(9) == "smart402:"@
}

/// Semantic richness in hundredths: a quarter for each populated summary
/// facet, a quarter for a non-empty party list.
pub open spec fn semantic_richness_of(c: UCLContract) -> int {
    (if c.summary.what_it_does@.len() > 0 {
        25int
    } else {
        0int
    }) + (if c.summary.who_its_for@.len() > 0 {
        25int
    } else {
        0int
    }) + (if c.summary.when_it_executes@.len() > 0 {
        25int
    } else {
        0int
    }) + (if c.metadata.parties@.len() > 0 {
        25int
    } else {
        0int
    })
}

/// Citation friendliness in hundredths: a recognizable id, a substantial
/// plain-English summary, and structured conditions.
pub open spec fn citation_friendliness_of(c: UCLContract) -> int {
    (if has_namespace_prefix(c.contract_id@) {
        40int
    } else {
        0int
    }) + (if c.summary.plain_english@.len() > 50 {
        30int
    } else {
        0int
    }) + (if c.conditions.required@.len() > 0 {
        30int
    } else {
        0int
    })
}

/// Findability in hundredths: a base of one half, raised by a category and a
/// contract type.
pub open spec fn findability_of(c: UCLContract) -> int {
    50int + (if c.metadata.category@.len() > 0 {
        25int
    } else {
        0int
    }) + (if c.metadata.contract_type@.len() > 0 {
        25int
    } else {
        0int
    })
}

/// Authority signals in hundredths: the reserved baseline of one half.
pub open spec fn authority_signals_of(c: UCLContract) -> int {
    50int
}

/// Citation presence in hundredths: the reserved baseline of one half.
pub open spec fn citation_presence_of(c: UCLContract) -> int {
    50int
}

/// The weighted total in ten-thousandths of one.
pub open spec fn total_of(c: UCLContract) -> int {
    semantic_richness_of(c) * (W_SEMANTIC as int) + citation_friendliness_of(c) * (
    W_CITATION as int) + findability_of(c) * (W_FINDABILITY as int) + authority_signals_of(c) * (
    W_AUTHORITY as int) + citation_presence_of(c) * (W_PRESENCE as int)
}

/// For every contract the weights sum to one, the total is exactly the
/// weighted sum of the sub-scores, and the total lies within the unit
/// interval (0 to 10000 ten-thousandths).
pub proof fn lemma_score_in_unit_interval(c: UCLContract)
    ensures
        W_SEMANTIC + W_CITATION + W_FINDABILITY + W_AUTHORITY + W_PRESENCE == 100,
        total_of(c) == semantic_richness_of(c) * (W_SEMANTIC as int) + citation_friendliness_of(
            c,
        ) * (W_CITATION as int) + findability_of(c) * (W_FINDABILITY as int)
            + authority_signals_of(c) * (W_AUTHORITY as int) + citation_presence_of(c) * (
        W_PRESENCE as int),
        0 <= total_of(c) <= 10000,
        0 <= semantic_richness_of(c) <= 100,
        0 <= citation_friendliness_of(c) <= 100,
        0 <= findability_of(c) <= 100,
{
}

impl Default for AEOEngine {
    /// The engine carries no state beyond the constant weight table.
    fn default() -> (r: AEOEngine)
        ensures
            r == (AEOEngine {  }),
    {
        AEOEngine {  }
    }
}

impl AEOEngine {
    /// Create a new scoring engine.
    pub fn new() -> (r: AEOEngine)
        ensures
            r == (AEOEngine {  }),
    {
        AEOEngine {  }
    }

    /// Score a contract: every sub-score and the weighted total, exactly as
    /// the scoring policy defines them.
    pub fn calculate_score(&self, ucl: &UCLContract) -> (r: Result<AEOScore, Error>)
        ensures
            r is Ok,
            r matches Ok(s) ==> {
                &&& s.semantic_richness == semantic_richness_of(*ucl)
                &&& s.citation_friendliness == citation_friendliness_of(*ucl)
                &&& s.findability == findability_of(*ucl)
                &&& s.authority_signals == authority_signals_of(*ucl)
                &&& s.citation_presence == citation_presence_of(*ucl)
                &&& s.total == total_of(*ucl)
                &&& s.total <= 10000
            },
    {
        let mut semantic: u32 = 0;
        if ucl.summary.what_it_does.as_str().unicode_len() > 0 {
            semantic = semantic + 25;
        }
        if ucl.summary.who_its_for.as_str().unicode_len() > 0 {
            semantic = semantic + 25;
        }
        if ucl.summary.when_it_executes.as_str().unicode_len() > 0 {
            semantic = semantic + 25;
        }
        if ucl.metadata.parties.len() > 0 {
            semantic = semantic + 25;
        }
        let mut citation: u32 = 0;
        let idlen = ucl.contract_id.as_str().unicode_len();
        if idlen >= 9 {
            let prefix = ucl.contract_id.as_str().substring_char(0, 9);
            if str_eq(prefix, "smart402:") {
                citation = citation + 40;
            }
        }
        if ucl.summary.plain_english.as_str().unicode_len() > 50 {
            citation = citation + 30;
        }
        if ucl.conditions.required.len() > 0 {
            citation = citation + 30;
        }
        let mut findability: u32 = 50;
        if ucl.metadata.category.as_str().unicode_len() > 0 {
            findability = findability + 25;
        }
        if ucl.metadata.contract_type.as_str().unicode_len() > 0 {
            findability = findability + 25;
        }
        let authority: u32 = 50;
        let presence: u32 = 50;
        let total: u32 = semantic * W_SEMANTIC + citation * W_CITATION + findability
            * W_FINDABILITY + authority * W_AUTHORITY + presence * W_PRESENCE;
        Ok(
            AEOScore {
                total,
                semantic_richness: semantic,
                citation_friendliness: citation,
                findability,
                authority_signals: authority,
                citation_presence: presence,
            },
        )
    }

    /// Render the schema.org structured-data markup for a contract.
    pub fn generate_jsonld(&self, ucl: &UCLContract) -> (r: Result<String, Error>)
        ensures
            r is Ok,
            r matches Ok(s) ==> s@ == jsonld_text(*ucl),
    {
        let mut out = String::new();
        out.append("{\n  \"@context\": \"https://schema.org/\",\n  \"@type\": \"SmartContract\",\n  \"identifier\": \"");
        push_json_escaped(&mut out, ucl.contract_id.as_str());
        out.append("\",\n  \"name\": \"");
        push_json_escaped(&mut out, ucl.summary.title.as_str());
        out.append("\",\n  \"description\": \"");
        push_json_escaped(&mut out, ucl.summary.plain_english.as_str());
        out.append("\",\n  \"version\": \"");
        push_json_escaped(&mut out, ucl.version.as_str());
        out.append("\",\n  \"contractType\": \"");
        push_json_escaped(&mut out, ucl.metadata.contract_type.as_str());
        out.append("\",\n  \"category\": \"");
        push_json_escaped(&mut out, ucl.metadata.category.as_str());
        out.append("\"\n}");
        proof {
            assert(out@ =~= jsonld_text(*ucl));
        }
        Ok(out)
    }
}

/// The structured-data document for a contract: a schema.org `SmartContract`
/// object carrying the contract's identifying fields.
pub open spec fn jsonld_text(c: UCLContract) -> Seq<char> {
    "{\n  \"@context\": \"https://schema.org/\",\n  \"@type\": \"SmartContract\",\n  \"identifier\": \""@
        + json_escape(c.contract_id@) + "\",\n  \"name\": \""@ + json_escape(c.summary.title@)
        + "\",\n  \"description\": \""@ + json_escape(c.summary.plain_english@)
        + "\",\n  \"version\": \""@ + json_escape(c.version@) + "\",\n  \"contractType\": \""@
        + json_escape(c.metadata.contract_type@) + "\",\n  \"category\": \""@ + json_escape(
        c.metadata.category@,
    ) + "\"\n}"@
}

} // verus!
