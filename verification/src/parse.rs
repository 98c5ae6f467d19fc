//! Parsing the persisted contract format.
//!
//! Each parsing function is specified against a spec-level grammar over the
//! split lines; the codec's round-trip lemmas show the grammar accepts
//! exactly what the emitter wrote.

use vstd::prelude::*;
use crate::amount::{Amount, parse_amount, parse_amount_spec};
use crate::codec::{
    ActionV, CondV, MetaEntryV, MetaValV, OracleV, PartyV, RuleV, UclV, action_view, cond_view,
    field_line, has_prefix, meta_entry_view, meta_val_view, oracle_view, party_view, payload_of,
    rule_view, ucl_view,
};
use crate::error::Error;
use crate::lines::seq_views;
use crate::model::{
    ActionDefinition, ConditionDefinition, Conditions, ContractMetadata, ContractSummary,
    DateInfo, MetaEntry, MetaValue, OracleDefinition, PartyInfo, PaymentTerms, RuleConditions,
    RuleDefinition, UCLContract,
};
use crate::num::{dec_val, is_dec_seq, parse_u64};
use crate::text::{str_eq, unescape_from, unescape_text};

verus! {

// ------------------------------------------------------------------
// The line grammar
// ------------------------------------------------------------------
/// The raw payload of the first line, behind a prefix.
pub open spec fn p_field(lines: Seq<Seq<char>>, prefix: Seq<char>) -> Option<
    (Seq<char>, Seq<Seq<char>>),
> {
    if lines.len() >= 1 && has_prefix(lines[0], prefix) {
        Option::Some((payload_of(lines[0], prefix), lines.skip(1)))
    } else {
        Option::None
    }
}

/// An escaped string field.
pub open spec fn p_scalar(lines: Seq<Seq<char>>, prefix: Seq<char>) -> Option<
    (Seq<char>, Seq<Seq<char>>),
> {
    match p_field(lines, prefix) {
        Option::Some((payload, rest)) => Option::Some((unescape_text(payload), rest)),
        Option::None => Option::None,
    }
}

/// A fixed line.
pub open spec fn p_exact(lines: Seq<Seq<char>>, lit: Seq<char>) -> Option<Seq<Seq<char>>> {
    if lines.len() >= 1 && lines[0] == lit {
        Option::Some(lines.skip(1))
    } else {
        Option::None
    }
}

/// An optional escaped string field: a bare tilde stands for absence.
pub open spec fn p_opt_str(lines: Seq<Seq<char>>, prefix: Seq<char>) -> Option<
    (Option<Seq<char>>, Seq<Seq<char>>),
> {
    match p_field(lines, prefix) {
        Option::Some((payload, rest)) => if payload == seq!['~'] {
            Option::Some((Option::None, rest))
        } else {
            Option::Some((Option::Some(unescape_text(payload)), rest))
        },
        Option::None => Option::None,
    }
}

/// A list count.
pub open spec fn p_count(lines: Seq<Seq<char>>, prefix: Seq<char>) -> Option<
    (int, Seq<Seq<char>>),
> {
    match p_field(lines, prefix) {
        Option::Some((payload, rest)) => if payload.len() >= 1 && is_dec_seq(payload) && dec_val(
            payload,
        ) <= u64::MAX {
            Option::Some((dec_val(payload) as int, rest))
        } else {
            Option::None
        },
        Option::None => Option::None,
    }
}

/// An optional list count: a bare tilde stands for an absent list.
pub open spec fn p_opt_count(lines: Seq<Seq<char>>, prefix: Seq<char>) -> Option<
    (Option<int>, Seq<Seq<char>>),
> {
    match p_field(lines, prefix) {
        Option::Some((payload, rest)) => if payload == seq!['~'] {
            Option::Some((Option::None, rest))
        } else if payload.len() >= 1 && is_dec_seq(payload) && dec_val(payload) <= u64::MAX {
            Option::Some((Option::Some(dec_val(payload) as int), rest))
        } else {
            Option::None
        },
        Option::None => Option::None,
    }
}

/// An amount field.
pub open spec fn p_amount(lines: Seq<Seq<char>>, prefix: Seq<char>) -> Option<
    (int, Seq<Seq<char>>),
> {
    match p_field(lines, prefix) {
        Option::Some((payload, rest)) => match parse_amount_spec(payload) {
            Option::Some(a) => Option::Some((a, rest)),
            Option::None => Option::None,
        },
        Option::None => Option::None,
    }
}

/// An optional amount field.
pub open spec fn p_opt_amount(lines: Seq<Seq<char>>, prefix: Seq<char>) -> Option<
    (Option<int>, Seq<Seq<char>>),
> {
    match p_field(lines, prefix) {
        Option::Some((payload, rest)) => if payload == seq!['~'] {
            Option::Some((Option::None, rest))
        } else {
            match parse_amount_spec(payload) {
                Option::Some(a) => Option::Some((Option::Some(a), rest)),
                Option::None => Option::None,
            }
        },
        Option::None => Option::None,
    }
}

/// A boolean field.
pub open spec fn p_bool(lines: Seq<Seq<char>>, prefix: Seq<char>) -> Option<
    (bool, Seq<Seq<char>>),
> {
    match p_field(lines, prefix) {
        Option::Some((payload, rest)) => if payload == "true"@ {
            Option::Some((true, rest))
        } else if payload == "false"@ {
            Option::Some((false, rest))
        } else {
            Option::None
        },
        Option::None => Option::None,
    }
}

/// A signed integer field, within the range of an `i64`.
pub open spec fn p_int(lines: Seq<Seq<char>>, prefix: Seq<char>) -> Option<(int, Seq<Seq<char>>)> {
    match p_field(lines, prefix) {
        Option::Some((payload, rest)) => if payload.len() >= 1 && payload[0] == '-' {
            {
                let mag = payload.skip(1);
                if mag.len() >= 1 && is_dec_seq(mag) && dec_val(mag) <= 0x8000000000000000 {
                    Option::Some((-(dec_val(mag) as int), rest))
                } else {
                    Option::None
                }
            }
        } else {
            if payload.len() >= 1 && is_dec_seq(payload) && dec_val(payload)
                <= 0x7fffffffffffffff {
                Option::Some((dec_val(payload) as int, rest))
            } else {
                Option::None
            }
        },
        Option::None => Option::None,
    }
}

/// One party record.
pub open spec fn p_party(lines: Seq<Seq<char>>) -> Option<(PartyV, Seq<Seq<char>>)> {
    match p_scalar(lines, "- role: "@) {
        Option::Some((role, l1)) => match p_scalar(l1, "  identifier: "@) {
            Option::Some((identifier, l2)) => match p_opt_str(l2, "  name: "@) {
                Option::Some((name, l3)) => Option::Some(
                    (PartyV { role, identifier, name }, l3),
                ),
                Option::None => Option::None,
            },
            Option::None => Option::None,
        },
        Option::None => Option::None,
    }
}

/// A list of `n` party records.
pub open spec fn p_parties(lines: Seq<Seq<char>>, n: int) -> Option<
    (Seq<PartyV>, Seq<Seq<char>>),
>
    decreases n,
{
    if n <= 0 {
        Option::Some((Seq::<PartyV>::empty(), lines))
    } else {
        match p_party(lines) {
            Option::Some((p, rest)) => match p_parties(rest, n - 1) {
                Option::Some((ps, rest2)) => Option::Some((seq![p] + ps, rest2)),
                Option::None => Option::None,
            },
            Option::None => Option::None,
        }
    }
}

/// A list of `n` string items.
pub open spec fn p_items(lines: Seq<Seq<char>>, n: int) -> Option<
    (Seq<Seq<char>>, Seq<Seq<char>>),
>
    decreases n,
{
    if n <= 0 {
        Option::Some((Seq::<Seq<char>>::empty(), lines))
    } else {
        match p_scalar(lines, "  - "@) {
            Option::Some((x, rest)) => match p_items(rest, n - 1) {
                Option::Some((xs, rest2)) => Option::Some((seq![x] + xs, rest2)),
                Option::None => Option::None,
            },
            Option::None => Option::None,
        }
    }
}

/// One metadata value: the line's key decides the kind.
pub open spec fn p_meta_value(lines: Seq<Seq<char>>) -> Option<(MetaValV, Seq<Seq<char>>)> {
    if lines.len() >= 1 && has_prefix(lines[0], "  text: "@) {
        match p_scalar(lines, "  text: "@) {
            Option::Some((s, rest)) => Option::Some((MetaValV::Text(s), rest)),
            Option::None => Option::None,
        }
    } else if lines.len() >= 1 && has_prefix(lines[0], "  int: "@) {
        match p_int(lines, "  int: "@) {
            Option::Some((i, rest)) => Option::Some((MetaValV::Integer(i), rest)),
            Option::None => Option::None,
        }
    } else if lines.len() >= 1 && has_prefix(lines[0], "  dec: "@) {
        match p_amount(lines, "  dec: "@) {
            Option::Some((a, rest)) => Option::Some((MetaValV::Decimal(a), rest)),
            Option::None => Option::None,
        }
    } else if lines.len() >= 1 && has_prefix(lines[0], "  flag: "@) {
        match p_bool(lines, "  flag: "@) {
            Option::Some((b, rest)) => Option::Some((MetaValV::Flag(b), rest)),
            Option::None => Option::None,
        }
    } else if lines.len() >= 1 && has_prefix(lines[0], "  items: "@) {
        match p_count(lines, "  items: "@) {
            Option::Some((n, l1)) => match p_items(l1, n) {
                Option::Some((xs, rest)) => Option::Some((MetaValV::TextList(xs), rest)),
                Option::None => Option::None,
            },
            Option::None => Option::None,
        }
    } else {
        Option::None
    }
}

/// One metadata entry record.
pub open spec fn p_meta_entry(lines: Seq<Seq<char>>) -> Option<(MetaEntryV, Seq<Seq<char>>)> {
    match p_scalar(lines, "- key: "@) {
        Option::Some((key, l1)) => match p_meta_value(l1) {
            Option::Some((value, l2)) => Option::Some((MetaEntryV { key, value }, l2)),
            Option::None => Option::None,
        },
        Option::None => Option::None,
    }
}

/// A list of `n` metadata entry records.
pub open spec fn p_meta_entries(lines: Seq<Seq<char>>, n: int) -> Option<
    (Seq<MetaEntryV>, Seq<Seq<char>>),
>
    decreases n,
{
    if n <= 0 {
        Option::Some((Seq::<MetaEntryV>::empty(), lines))
    } else {
        match p_meta_entry(lines) {
            Option::Some((e, rest)) => match p_meta_entries(rest, n - 1) {
                Option::Some((es, rest2)) => Option::Some((seq![e] + es, rest2)),
                Option::None => Option::None,
            },
            Option::None => Option::None,
        }
    }
}

/// One condition record.
pub open spec fn p_cond(lines: Seq<Seq<char>>) -> Option<(CondV, Seq<Seq<char>>)> {
    match p_scalar(lines, "- id: "@) {
        Option::Some((id, l1)) => match p_scalar(l1, "  description: "@) {
            Option::Some((description, l2)) => match p_scalar(l2, "  source: "@) {
                Option::Some((source, l3)) => match p_scalar(l3, "  operator: "@) {
                    Option::Some((operator, l4)) => match p_opt_amount(l4, "  threshold: "@) {
                        Option::Some((threshold, l5)) => Option::Some(
                            (CondV { id, description, source, operator, threshold }, l5),
                        ),
                        Option::None => Option::None,
                    },
                    Option::None => Option::None,
                },
                Option::None => Option::None,
            },
            Option::None => Option::None,
        },
        Option::None => Option::None,
    }
}

/// A list of `n` condition records.
pub open spec fn p_conds(lines: Seq<Seq<char>>, n: int) -> Option<(Seq<CondV>, Seq<Seq<char>>)>
    decreases n,
{
    if n <= 0 {
        Option::Some((Seq::<CondV>::empty(), lines))
    } else {
        match p_cond(lines) {
            Option::Some((c, rest)) => match p_conds(rest, n - 1) {
                Option::Some((cs, rest2)) => Option::Some((seq![c] + cs, rest2)),
                Option::None => Option::None,
            },
            Option::None => Option::None,
        }
    }
}

/// One oracle record.
pub open spec fn p_oracle(lines: Seq<Seq<char>>) -> Option<(OracleV, Seq<Seq<char>>)> {
    match p_scalar(lines, "- id: "@) {
        Option::Some((id, l1)) => match p_scalar(l1, "  type: "@) {
            Option::Some((oracle_type, l2)) => match p_opt_str(l2, "  endpoint: "@) {
                Option::Some((endpoint, l3)) => match p_scalar(l3, "  refresh_rate: "@) {
                    Option::Some((refresh_rate, l4)) => match p_bool(l4, "  required: "@) {
                        Option::Some((required, l5)) => Option::Some(
                            (OracleV { id, oracle_type, endpoint, refresh_rate, required }, l5),
                        ),
                        Option::None => Option::None,
                    },
                    Option::None => Option::None,
                },
                Option::None => Option::None,
            },
            Option::None => Option::None,
        },
        Option::None => Option::None,
    }
}

/// A list of `n` oracle records.
pub open spec fn p_oracles(lines: Seq<Seq<char>>, n: int) -> Option<(Seq<OracleV>, Seq<Seq<char>>)>
    decreases n,
{
    if n <= 0 {
        Option::Some((Seq::<OracleV>::empty(), lines))
    } else {
        match p_oracle(lines) {
            Option::Some((o, rest)) => match p_oracles(rest, n - 1) {
                Option::Some((os, rest2)) => Option::Some((seq![o] + os, rest2)),
                Option::None => Option::None,
            },
            Option::None => Option::None,
        }
    }
}

/// An optional string list: the count-or-tilde line, then the items.
pub open spec fn p_opt_items(lines: Seq<Seq<char>>, prefix: Seq<char>) -> Option<
    (Option<Seq<Seq<char>>>, Seq<Seq<char>>),
> {
    match p_opt_count(lines, prefix) {
        Option::Some((Option::None, rest)) => Option::Some((Option::None, rest)),
        Option::Some((Option::Some(n), rest)) => match p_items(rest, n) {
            Option::Some((xs, rest2)) => Option::Some((Option::Some(xs), rest2)),
            Option::None => Option::None,
        },
        Option::None => Option::None,
    }
}

/// One action record.
pub open spec fn p_action(lines: Seq<Seq<char>>) -> Option<(ActionV, Seq<Seq<char>>)> {
    match p_scalar(lines, "- action: "@) {
        Option::Some((action, l1)) => match p_count(l1, "  params: "@) {
            Option::Some((n, l2)) => match p_meta_entries(l2, n) {
                Option::Some((params, l3)) => Option::Some((ActionV { action, params }, l3)),
                Option::None => Option::None,
            },
            Option::None => Option::None,
        },
        Option::None => Option::None,
    }
}

/// A list of `n` action records.
pub open spec fn p_actions(lines: Seq<Seq<char>>, n: int) -> Option<(Seq<ActionV>, Seq<Seq<char>>)>
    decreases n,
{
    if n <= 0 {
        Option::Some((Seq::<ActionV>::empty(), lines))
    } else {
        match p_action(lines) {
            Option::Some((a, rest)) => match p_actions(rest, n - 1) {
                Option::Some((az, rest2)) => Option::Some((seq![a] + az, rest2)),
                Option::None => Option::None,
            },
            Option::None => Option::None,
        }
    }
}

/// One rule record.
pub open spec fn p_rule(lines: Seq<Seq<char>>) -> Option<(RuleV, Seq<Seq<char>>)> {
    match p_scalar(lines, "- rule_id: "@) {
        Option::Some((rule_id, l1)) => match p_scalar(l1, "  name: "@) {
            Option::Some((name, l2)) => match p_scalar(l2, "  trigger: "@) {
                Option::Some((trigger, l3)) => match p_opt_items(l3, "  all_of: "@) {
                    Option::Some((all_of, l4)) => match p_opt_items(l4, "  any_of: "@) {
                        Option::Some((any_of, l5)) => match p_count(l5, "  actions: "@) {
                            Option::Some((n, l6)) => match p_actions(l6, n) {
                                Option::Some((actions, l7)) => Option::Some(
                                    (
                                        RuleV {
                                            rule_id,
                                            name,
                                            trigger,
                                            all_of,
                                            any_of,
                                            actions,
                                        },
                                        l7,
                                    ),
                                ),
                                Option::None => Option::None,
                            },
                            Option::None => Option::None,
                        },
                        Option::None => Option::None,
                    },
                    Option::None => Option::None,
                },
                Option::None => Option::None,
            },
            Option::None => Option::None,
        },
        Option::None => Option::None,
    }
}

/// A list of `n` rule records.
pub open spec fn p_rules(lines: Seq<Seq<char>>, n: int) -> Option<(Seq<RuleV>, Seq<Seq<char>>)>
    decreases n,
{
    if n <= 0 {
        Option::Some((Seq::<RuleV>::empty(), lines))
    } else {
        match p_rule(lines) {
            Option::Some((r, rest)) => match p_rules(rest, n - 1) {
                Option::Some((rs, rest2)) => Option::Some((seq![r] + rs, rest2)),
                Option::None => Option::None,
            },
            Option::None => Option::None,
        }
    }
}

/// The leading scalar fields of a contract, through the metadata category.
pub ghost struct HeadV {
    pub contract_id: Seq<char>,
    pub version: Seq<char>,
    pub standard: Seq<char>,
    pub title: Seq<char>,
    pub plain_english: Seq<char>,
    pub what_it_does: Seq<char>,
    pub who_its_for: Seq<char>,
    pub when_it_executes: Seq<char>,
    pub contract_type: Seq<char>,
    pub category: Seq<char>,
}

/// The party list, dates, and extra entries of the metadata section.
pub ghost struct MidV {
    pub parties: Seq<PartyV>,
    pub effective: Seq<char>,
    pub duration: Seq<char>,
    pub renewal: Seq<char>,
    pub extra: Seq<MetaEntryV>,
}

/// The payment section.
pub ghost struct PayV {
    pub structure: Seq<char>,
    pub amount: int,
    pub currency: Seq<char>,
    pub token: Seq<char>,
    pub blockchain: Seq<char>,
    pub frequency: Seq<char>,
}

/// The conditions, oracles and rules sections.
pub ghost struct TailV {
    pub required: Seq<CondV>,
    pub optional: Option<Seq<CondV>>,
    pub oracles: Seq<OracleV>,
    pub rules: Seq<RuleV>,
}

/// The head of a persisted contract.
pub open spec fn p_head(lines: Seq<Seq<char>>) -> Option<(HeadV, Seq<Seq<char>>)> {
    match p_scalar(lines, "contract_id: "@) {
        Option::Some((contract_id, l1)) => match p_scalar(l1, "version: "@) {
            Option::Some((version, l2)) => match p_scalar(l2, "standard: "@) {
                Option::Some((standard, l3)) => match p_exact(l3, "summary:"@) {
                    Option::Some(l4) => match p_scalar(l4, "  title: "@) {
                        Option::Some((title, l5)) => match p_scalar(l5, "  plain_english: "@) {
                            Option::Some((plain_english, l6)) => match p_scalar(
                                l6,
                                "  what_it_does: "@,
                            ) {
                                Option::Some((what_it_does, l7)) => match p_scalar(
                                    l7,
                                    "  who_its_for: "@,
                                ) {
                                    Option::Some((who_its_for, l8)) => match p_scalar(
                                        l8,
                                        "  when_it_executes: "@,
                                    ) {
                                        Option::Some((when_it_executes, l9)) => match p_exact(
                                            l9,
                                            "metadata:"@,
                                        ) {
                                            Option::Some(l10) => match p_scalar(
                                                l10,
                                                "  type: "@,
                                            ) {
                                                Option::Some((contract_type, l11)) => match
                                                    p_scalar(l11, "  category: "@) {
                                                    Option::Some((category, l12)) => Option::Some(
                                                        (
                                                            HeadV {
                                                                contract_id,
                                                                version,
                                                                standard,
                                                                title,
                                                                plain_english,
                                                                what_it_does,
                                                                who_its_for,
                                                                when_it_executes,
                                                                contract_type,
                                                                category,
                                                            },
                                                            l12,
                                                        ),
                                                    ),
                                                    Option::None => Option::None,
                                                },
                                                Option::None => Option::None,
                                            },
                                            Option::None => Option::None,
                                        },
                                        Option::None => Option::None,
                                    },
                                    Option::None => Option::None,
                                },
                                Option::None => Option::None,
                            },
                            Option::None => Option::None,
                        },
                        Option::None => Option::None,
                    },
                    Option::None => Option::None,
                },
                Option::None => Option::None,
            },
            Option::None => Option::None,
        },
        Option::None => Option::None,
    }
}

/// The middle of a persisted contract: parties, dates, extras.
pub open spec fn p_mid(lines: Seq<Seq<char>>) -> Option<(MidV, Seq<Seq<char>>)> {
    match p_count(lines, "  parties: "@) {
        Option::Some((n, l1)) => match p_parties(l1, n) {
            Option::Some((parties, l2)) => match p_scalar(l2, "  effective: "@) {
                Option::Some((effective, l3)) => match p_scalar(l3, "  duration: "@) {
                    Option::Some((duration, l4)) => match p_scalar(l4, "  renewal: "@) {
                        Option::Some((renewal, l5)) => match p_count(l5, "  extra: "@) {
                            Option::Some((m, l6)) => match p_meta_entries(l6, m) {
                                Option::Some((extra, l7)) => Option::Some(
                                    (MidV { parties, effective, duration, renewal, extra }, l7),
                                ),
                                Option::None => Option::None,
                            },
                            Option::None => Option::None,
                        },
                        Option::None => Option::None,
                    },
                    Option::None => Option::None,
                },
                Option::None => Option::None,
            },
            Option::None => Option::None,
        },
        Option::None => Option::None,
    }
}

/// The payment section of a persisted contract.
pub open spec fn p_pay(lines: Seq<Seq<char>>) -> Option<(PayV, Seq<Seq<char>>)> {
    match p_exact(lines, "payment:"@) {
        Option::Some(l1) => match p_scalar(l1, "  structure: "@) {
            Option::Some((structure, l2)) => match p_amount(l2, "  amount: "@) {
                Option::Some((amount, l3)) => match p_scalar(l3, "  currency: "@) {
                    Option::Some((currency, l4)) => match p_scalar(l4, "  token: "@) {
                        Option::Some((token, l5)) => match p_scalar(l5, "  blockchain: "@) {
                            Option::Some((blockchain, l6)) => match p_scalar(
                                l6,
                                "  frequency: "@,
                            ) {
                                Option::Some((frequency, l7)) => Option::Some(
                                    (
                                        PayV {
                                            structure,
                                            amount,
                                            currency,
                                            token,
                                            blockchain,
                                            frequency,
                                        },
                                        l7,
                                    ),
                                ),
                                Option::None => Option::None,
                            },
                            Option::None => Option::None,
                        },
                        Option::None => Option::None,
                    },
                    Option::None => Option::None,
                },
                Option::None => Option::None,
            },
            Option::None => Option::None,
        },
        Option::None => Option::None,
    }
}

/// The tail of a persisted contract: conditions, oracles, rules.
pub open spec fn p_tail(lines: Seq<Seq<char>>) -> Option<(TailV, Seq<Seq<char>>)> {
    match p_exact(lines, "conditions:"@) {
        Option::Some(l1) => match p_count(l1, "  required: "@) {
            Option::Some((n, l2)) => match p_conds(l2, n) {
                Option::Some((required, l3)) => match p_opt_count(l3, "  optional: "@) {
                    Option::Some((on, l4)) => {
                        let after_opt = match on {
                            Option::Some(m) => match p_conds(l4, m) {
                                Option::Some((ocs, l5)) => Option::Some(
                                    (Option::Some(ocs), l5),
                                ),
                                Option::None => Option::None,
                            },
                            Option::None => Option::Some((Option::None, l4)),
                        };
                        match after_opt {
                            Option::Some((optional, l5)) => match p_count(l5, "oracles: "@) {
                                Option::Some((q, l6)) => match p_oracles(l6, q) {
                                    Option::Some((oracles, l7)) => match p_count(
                                        l7,
                                        "rules: "@,
                                    ) {
                                        Option::Some((w, l8)) => match p_rules(l8, w) {
                                            Option::Some((rules, l9)) => Option::Some(
                                                (
                                                    TailV { required, optional, oracles, rules },
                                                    l9,
                                                ),
                                            ),
                                            Option::None => Option::None,
                                        },
                                        Option::None => Option::None,
                                    },
                                    Option::None => Option::None,
                                },
                                Option::None => Option::None,
                            },
                            Option::None => Option::None,
                        }
                    },
                    Option::None => Option::None,
                },
                Option::None => Option::None,
            },
            Option::None => Option::None,
        },
        Option::None => Option::None,
    }
}

/// A whole persisted contract.
pub open spec fn p_contract(lines: Seq<Seq<char>>) -> Option<UclV> {
    match p_head(lines) {
        Option::Some((h, l1)) => match p_mid(l1) {
            Option::Some((m, l2)) => match p_pay(l2) {
                Option::Some((p, l3)) => match p_tail(l3) {
                    Option::Some((t, _l4)) => Option::Some(
                        UclV {
                            contract_id: h.contract_id,
                            version: h.version,
                            standard: h.standard,
                            title: h.title,
                            plain_english: h.plain_english,
                            what_it_does: h.what_it_does,
                            who_its_for: h.who_its_for,
                            when_it_executes: h.when_it_executes,
                            contract_type: h.contract_type,
                            category: h.category,
                            parties: m.parties,
                            effective: m.effective,
                            duration: m.duration,
                            renewal: m.renewal,
                            extra: m.extra,
                            structure: p.structure,
                            amount: p.amount,
                            currency: p.currency,
                            token: p.token,
                            blockchain: p.blockchain,
                            frequency: p.frequency,
                            required: t.required,
                            optional: t.optional,
                            oracles: t.oracles,
                            rules: t.rules,
                        },
                    ),
                    Option::None => Option::None,
                },
                Option::None => Option::None,
            },
            Option::None => Option::None,
        },
        Option::None => Option::None,
    }
}

// ------------------------------------------------------------------
// Executable parsing
// ------------------------------------------------------------------
/// Whether `line` starts with `prefix`, character by character.
fn check_prefix(line: &str, prefix: &str) -> (b: bool)
    ensures
        b == has_prefix(line@, prefix@),
{
    let nl = line.unicode_len();
    let np = prefix.unicode_len();
    if nl < np {
        return false;
    }
    let mut j: usize = 0;
    while j < np
        invariant
            0 <= j <= np,
            np == prefix@.len(),
            nl == line@.len(),
            np <= nl,
            forall|m: int| 0 <= m < j ==> line@[m] == prefix@[m],
        decreases np - j,
    {
        if line.get_char(j) != prefix.get_char(j) {
            proof {
                assert(line@.take(np as int)[j as int] != prefix@[j as int]);
            }
            return false;
        }
        j = j + 1;
    }
    proof {
        assert(line@.take(np as int) =~= prefix@);
    }
    true
}

/// Parse a raw-payload line.
fn pe_field(lines: &Vec<String>, i: usize, prefix: &str) -> (r: Option<(String, usize)>)
    requires
        i <= lines@.len(),
    ensures
        match r {
            Option::Some((v, j)) => j == i + 1 && j <= lines@.len() && p_field(
                seq_views(lines@).skip(i as int),
                prefix@,
            ) == Option::Some((v@, seq_views(lines@).skip(j as int))),
            Option::None => p_field(seq_views(lines@).skip(i as int), prefix@) is None,
        },
{
    let ghost t = seq_views(lines@).skip(i as int);
    if i >= lines.len() {
        proof {
            assert(t.len() == 0);
        }
        return None;
    }
    proof {
        assert(t[0] == lines@[i as int]@);
        assert(t.skip(1) =~= seq_views(lines@).skip(i as int + 1));
    }
    let line = lines[i].as_str();
    if !check_prefix(line, prefix) {
        return None;
    }
    let np = prefix.unicode_len();
    let nl = line.unicode_len();
    let payload = String::from_str(line.substring_char(np, nl));
    proof {
        assert(payload@ =~= payload_of(t[0], prefix@));
    }
    Some((payload, i + 1))
}

/// Parse an escaped string line.
fn pe_scalar(lines: &Vec<String>, i: usize, prefix: &str) -> (r: Option<(String, usize)>)
    requires
        i <= lines@.len(),
    ensures
        match r {
            Option::Some((v, j)) => j == i + 1 && j <= lines@.len() && p_scalar(
                seq_views(lines@).skip(i as int),
                prefix@,
            ) == Option::Some((v@, seq_views(lines@).skip(j as int))),
            Option::None => p_scalar(seq_views(lines@).skip(i as int), prefix@) is None,
        },
{
    match pe_field(lines, i, prefix) {
        Some((payload, j)) => {
            let v = unescape_from(payload.as_str(), 0);
            proof {
                assert(payload@.skip(0) =~= payload@);
            }
            Some((v, j))
        },
        None => None,
    }
}

/// Parse a fixed line.
fn pe_exact(lines: &Vec<String>, i: usize, lit: &str) -> (r: Option<usize>)
    requires
        i <= lines@.len(),
    ensures
        match r {
            Option::Some(j) => j == i + 1 && j <= lines@.len() && p_exact(
                seq_views(lines@).skip(i as int),
                lit@,
            ) == Option::Some(seq_views(lines@).skip(j as int)),
            Option::None => p_exact(seq_views(lines@).skip(i as int), lit@) is None,
        },
{
    let ghost t = seq_views(lines@).skip(i as int);
    if i >= lines.len() {
        proof {
            assert(t.len() == 0);
        }
        return None;
    }
    proof {
        assert(t[0] == lines@[i as int]@);
        assert(t.skip(1) =~= seq_views(lines@).skip(i as int + 1));
    }
    if str_eq(lines[i].as_str(), lit) {
        Some(i + 1)
    } else {
        None
    }
}

/// Parse an optional escaped string line.
fn pe_opt_str(lines: &Vec<String>, i: usize, prefix: &str) -> (r: Option<(Option<String>, usize)>)
    requires
        i <= lines@.len(),
    ensures
        match r {
            Option::Some((v, j)) => j == i + 1 && j <= lines@.len() && p_opt_str(
                seq_views(lines@).skip(i as int),
                prefix@,
            ) == Option::Some(
                (
                    match v {
                        Option::Some(s) => Option::Some(s@),
                        Option::None => Option::None,
                    },
                    seq_views(lines@).skip(j as int),
                ),
            ),
            Option::None => p_opt_str(seq_views(lines@).skip(i as int), prefix@) is None,
        },
{
    match pe_field(lines, i, prefix) {
        Some((payload, j)) => {
            proof {
                reveal_strlit("~");
                assert("~"@ =~= seq!['~']);
            }
            if str_eq(payload.as_str(), "~") {
                Some((None, j))
            } else {
                let v = unescape_from(payload.as_str(), 0);
                proof {
                    assert(payload@.skip(0) =~= payload@);
                }
                Some((Some(v), j))
            }
        },
        None => None,
    }
}

/// Parse a count line.
fn pe_count(lines: &Vec<String>, i: usize, prefix: &str) -> (r: Option<(u64, usize)>)
    requires
        i <= lines@.len(),
    ensures
        match r {
            Option::Some((n, j)) => j == i + 1 && j <= lines@.len() && p_count(
                seq_views(lines@).skip(i as int),
                prefix@,
            ) == Option::Some((n as int, seq_views(lines@).skip(j as int))),
            Option::None => p_count(seq_views(lines@).skip(i as int), prefix@) is None,
        },
{
    match pe_field(lines, i, prefix) {
        Some((payload, j)) => {
            match parse_u64(payload.as_str()) {
                Some(n) => Some((n, j)),
                None => None,
            }
        },
        None => None,
    }
}

/// Parse an optional count line.
fn pe_opt_count(lines: &Vec<String>, i: usize, prefix: &str) -> (r: Option<(Option<u64>, usize)>)
    requires
        i <= lines@.len(),
    ensures
        match r {
            Option::Some((n, j)) => j == i + 1 && j <= lines@.len() && p_opt_count(
                seq_views(lines@).skip(i as int),
                prefix@,
            ) == Option::Some(
                (
                    match n {
                        Option::Some(v) => Option::Some(v as int),
                        Option::None => Option::None,
                    },
                    seq_views(lines@).skip(j as int),
                ),
            ),
            Option::None => p_opt_count(seq_views(lines@).skip(i as int), prefix@) is None,
        },
{
    match pe_field(lines, i, prefix) {
        Some((payload, j)) => {
            proof {
                reveal_strlit("~");
                assert("~"@ =~= seq!['~']);
            }
            if str_eq(payload.as_str(), "~") {
                Some((None, j))
            } else {
                match parse_u64(payload.as_str()) {
                    Some(n) => Some((Some(n), j)),
                    None => None,
                }
            }
        },
        None => None,
    }
}

/// Parse an amount line.
fn pe_amount(lines: &Vec<String>, i: usize, prefix: &str) -> (r: Option<(Amount, usize)>)
    requires
        i <= lines@.len(),
    ensures
        match r {
            Option::Some((a, j)) => j == i + 1 && j <= lines@.len() && p_amount(
                seq_views(lines@).skip(i as int),
                prefix@,
            ) == Option::Some((a@, seq_views(lines@).skip(j as int))),
            Option::None => p_amount(seq_views(lines@).skip(i as int), prefix@) is None,
        },
{
    match pe_field(lines, i, prefix) {
        Some((payload, j)) => {
            match parse_amount(payload.as_str()) {
                Some(a) => Some((a, j)),
                None => None,
            }
        },
        None => None,
    }
}

/// Parse an optional amount line.
fn pe_opt_amount(lines: &Vec<String>, i: usize, prefix: &str) -> (r: Option<
    (Option<Amount>, usize),
>)
    requires
        i <= lines@.len(),
    ensures
        match r {
            Option::Some((a, j)) => j == i + 1 && j <= lines@.len() && p_opt_amount(
                seq_views(lines@).skip(i as int),
                prefix@,
            ) == Option::Some(
                (
                    match a {
                        Option::Some(x) => Option::Some(x@),
                        Option::None => Option::None,
                    },
                    seq_views(lines@).skip(j as int),
                ),
            ),
            Option::None => p_opt_amount(seq_views(lines@).skip(i as int), prefix@) is None,
        },
{
    match pe_field(lines, i, prefix) {
        Some((payload, j)) => {
            proof {
                reveal_strlit("~");
                assert("~"@ =~= seq!['~']);
            }
            if str_eq(payload.as_str(), "~") {
                Some((None, j))
            } else {
                match parse_amount(payload.as_str()) {
                    Some(a) => Some((Some(a), j)),
                    None => None,
                }
            }
        },
        None => None,
    }
}

/// Parse a boolean line.
fn pe_bool(lines: &Vec<String>, i: usize, prefix: &str) -> (r: Option<(bool, usize)>)
    requires
        i <= lines@.len(),
    ensures
        match r {
            Option::Some((b, j)) => j == i + 1 && j <= lines@.len() && p_bool(
                seq_views(lines@).skip(i as int),
                prefix@,
            ) == Option::Some((b, seq_views(lines@).skip(j as int))),
            Option::None => p_bool(seq_views(lines@).skip(i as int), prefix@) is None,
        },
{
    match pe_field(lines, i, prefix) {
        Some((payload, j)) => {
            if str_eq(payload.as_str(), "true") {
                Some((true, j))
            } else if str_eq(payload.as_str(), "false") {
                Some((false, j))
            } else {
                None
            }
        },
        None => None,
    }
}

/// Parse a signed integer line.
fn pe_int(lines: &Vec<String>, i: usize, prefix: &str) -> (r: Option<(i64, usize)>)
    requires
        i <= lines@.len(),
    ensures
        match r {
            Option::Some((v, j)) => j == i + 1 && j <= lines@.len() && p_int(
                seq_views(lines@).skip(i as int),
                prefix@,
            ) == Option::Some((v as int, seq_views(lines@).skip(j as int))),
            Option::None => p_int(seq_views(lines@).skip(i as int), prefix@) is None,
        },
{
    match pe_field(lines, i, prefix) {
        Some((payload, j)) => {
            let p = payload.as_str();
            let n = p.unicode_len();
            if n == 0 {
                return None;
            }
            if p.get_char(0) == '-' {
                let mag_str = p.substring_char(1, n);
                proof {
                    assert(mag_str@ =~= p@.skip(1));
                }
                match parse_u64(mag_str) {
                    Some(mag) => {
                        if mag <= 0x8000000000000000u64 {
                            let v: i64 = (-(mag as i128)) as i64;
                            proof {
                                assert(v as int == -(mag as int));
                            }
                            Some((v, j))
                        } else {
                            None
                        }
                    },
                    None => {
                        proof {
                            let mag = p@.skip(1);
                            if mag.len() >= 1 && is_dec_seq(mag) {
                                assert(dec_val(mag) > u64::MAX);
                            }
                        }
                        None
                    },
                }
            } else {
                match parse_u64(p) {
                    Some(v) => {
                        if v <= 0x7fffffffffffffffu64 {
                            Some((v as i64, j))
                        } else {
                            None
                        }
                    },
                    None => {
                        proof {
                            if p@.len() >= 1 && is_dec_seq(p@) {
                                assert(dec_val(p@) > u64::MAX);
                            }
                        }
                        None
                    },
                }
            }
        },
        None => None,
    }
}

/// Parse one party record.
fn pe_party(lines: &Vec<String>, i: usize) -> (r: Option<(PartyInfo, usize)>)
    requires
        i <= lines@.len(),
    ensures
        match r {
            Option::Some((p, j)) => i < j <= lines@.len() && p_party(
                seq_views(lines@).skip(i as int),
            ) == Option::Some((party_view(p), seq_views(lines@).skip(j as int))),
            Option::None => p_party(seq_views(lines@).skip(i as int)) is None,
        },
{
    let (role, i1) = match pe_scalar(lines, i, "- role: ") {
        Some(x) => x,
        None => {
            return None;
        },
    };
    let (identifier, i2) = match pe_scalar(lines, i1, "  identifier: ") {
        Some(x) => x,
        None => {
            return None;
        },
    };
    let (name, i3) = match pe_opt_str(lines, i2, "  name: ") {
        Some(x) => x,
        None => {
            return None;
        },
    };
    Some((PartyInfo { role, identifier, name }, i3))
}

/// Parse `n` party records.
fn pe_parties(lines: &Vec<String>, i: usize, n: u64) -> (r: Option<(Vec<PartyInfo>, usize)>)
    requires
        i <= lines@.len(),
    ensures
        match r {
            Option::Some((ps, j)) => i <= j <= lines@.len() && p_parties(
                seq_views(lines@).skip(i as int),
                n as int,
            ) == Option::Some(
                (
                    Seq::new(ps@.len(), |q: int| party_view(ps@[q])),
                    seq_views(lines@).skip(j as int),
                ),
            ),
            Option::None => p_parties(seq_views(lines@).skip(i as int), n as int) is None,
        },
{
    let ghost lv = seq_views(lines@);
    let mut acc: Vec<PartyInfo> = Vec::new();
    let mut cur = i;
    let mut k: u64 = 0;
    proof {
        assert(Seq::new(acc@.len(), |q: int| party_view(acc@[q])) + p_parties(
            lv.skip(i as int),
            n as int,
        ).unwrap().0 =~= p_parties(lv.skip(i as int), n as int).unwrap().0);
    }
    while k < n
        invariant
            i <= cur <= lines@.len(),
            0 <= k <= n,
            lv == seq_views(lines@),
            p_parties(lv.skip(i as int), n as int) == (match p_parties(
                lv.skip(cur as int),
                (n - k) as int,
            ) {
                Option::Some((ps, rest)) => Option::Some(
                    (Seq::new(acc@.len(), |q: int| party_view(acc@[q])) + ps, rest),
                ),
                Option::None => Option::<(Seq<PartyV>, Seq<Seq<char>>)>::None,
            }),
        decreases n - k,
    {
        let ghost accv = Seq::new(acc@.len(), |q: int| party_view(acc@[q]));
        match pe_party(lines, cur) {
            Some((p, j)) => {
                proof {
                    let inner = p_parties(lv.skip(j as int), (n - k - 1) as int);
                    if inner is Some {
                        assert(accv + (seq![party_view(p)] + inner.unwrap().0) =~= accv.push(
                            party_view(p),
                        ) + inner.unwrap().0);
                    }
                }
                acc.push(p);
                proof {
                    assert(Seq::new(acc@.len(), |q: int| party_view(acc@[q])) =~= accv.push(
                        party_view(p),
                    ));
                }
                cur = j;
            },
            None => {
                return None;
            },
        }
        k = k + 1;
    }
    proof {
        let accv = Seq::new(acc@.len(), |q: int| party_view(acc@[q]));
        assert(p_parties(lv.skip(cur as int), 0) == Option::<(Seq<PartyV>, Seq<Seq<char>>)>::Some(
            (Seq::<PartyV>::empty(), lv.skip(cur as int)),
        ));
        assert(accv + Seq::<PartyV>::empty() =~= accv);
    }
    Some((acc, cur))
}

/// Parse `n` string items.
fn pe_items(lines: &Vec<String>, i: usize, n: u64) -> (r: Option<(Vec<String>, usize)>)
    requires
        i <= lines@.len(),
    ensures
        match r {
            Option::Some((xs, j)) => i <= j <= lines@.len() && p_items(
                seq_views(lines@).skip(i as int),
                n as int,
            ) == Option::Some(
                (Seq::new(xs@.len(), |q: int| xs@[q]@), seq_views(lines@).skip(j as int)),
            ),
            Option::None => p_items(seq_views(lines@).skip(i as int), n as int) is None,
        },
{
    let ghost lv = seq_views(lines@);
    let mut acc: Vec<String> = Vec::new();
    let mut cur = i;
    let mut k: u64 = 0;
    proof {
        assert(Seq::new(acc@.len(), |q: int| acc@[q]@) + p_items(
            lv.skip(i as int),
            n as int,
        ).unwrap().0 =~= p_items(lv.skip(i as int), n as int).unwrap().0);
    }
    while k < n
        invariant
            i <= cur <= lines@.len(),
            0 <= k <= n,
            lv == seq_views(lines@),
            p_items(lv.skip(i as int), n as int) == (match p_items(
                lv.skip(cur as int),
                (n - k) as int,
            ) {
                Option::Some((xs, rest)) => Option::Some(
                    (Seq::new(acc@.len(), |q: int| acc@[q]@) + xs, rest),
                ),
                Option::None => Option::<(Seq<Seq<char>>, Seq<Seq<char>>)>::None,
            }),
        decreases n - k,
    {
        let ghost accv = Seq::new(acc@.len(), |q: int| acc@[q]@);
        match pe_scalar(lines, cur, "  - ") {
            Some((x, j)) => {
                proof {
                    let inner = p_items(lv.skip(j as int), (n - k - 1) as int);
                    if inner is Some {
                        assert(accv + (seq![x@] + inner.unwrap().0) =~= accv.push(x@)
                            + inner.unwrap().0);
                    }
                }
                acc.push(x);
                proof {
                    assert(Seq::new(acc@.len(), |q: int| acc@[q]@) =~= accv.push(acc@.last()@));
                }
                cur = j;
            },
            None => {
                return None;
            },
        }
        k = k + 1;
    }
    proof {
        let accv = Seq::new(acc@.len(), |q: int| acc@[q]@);
        assert(accv + Seq::<Seq<char>>::empty() =~= accv);
    }
    Some((acc, cur))
}

/// Parse one metadata value.
fn pe_meta_value(lines: &Vec<String>, i: usize) -> (r: Option<(MetaValue, usize)>)
    requires
        i <= lines@.len(),
    ensures
        match r {
            Option::Some((v, j)) => i < j <= lines@.len() && p_meta_value(
                seq_views(lines@).skip(i as int),
            ) == Option::Some((meta_val_view(v), seq_views(lines@).skip(j as int))),
            Option::None => p_meta_value(seq_views(lines@).skip(i as int)) is None,
        },
{
    let ghost t = seq_views(lines@).skip(i as int);
    if i >= lines.len() {
        proof {
            assert(t.len() == 0);
        }
        return None;
    }
    proof {
        assert(t[0] == lines@[i as int]@);
    }
    let line = lines[i].as_str();
    if check_prefix(line, "  text: ") {
        match pe_scalar(lines, i, "  text: ") {
            Some((s, j)) => Some((MetaValue::Text(s), j)),
            None => None,
        }
    } else if check_prefix(line, "  int: ") {
        match pe_int(lines, i, "  int: ") {
            Some((v, j)) => Some((MetaValue::Integer(v), j)),
            None => None,
        }
    } else if check_prefix(line, "  dec: ") {
        match pe_amount(lines, i, "  dec: ") {
            Some((a, j)) => Some((MetaValue::Decimal(a), j)),
            None => None,
        }
    } else if check_prefix(line, "  flag: ") {
        match pe_bool(lines, i, "  flag: ") {
            Some((b, j)) => Some((MetaValue::Flag(b), j)),
            None => None,
        }
    } else if check_prefix(line, "  items: ") {
        match pe_count(lines, i, "  items: ") {
            Some((n, j)) => {
                match pe_items(lines, j, n) {
                    Some((xs, j2)) => Some((MetaValue::TextList(xs), j2)),
                    None => None,
                }
            },
            None => None,
        }
    } else {
        None
    }
}

/// Parse one metadata entry record.
fn pe_meta_entry(lines: &Vec<String>, i: usize) -> (r: Option<(MetaEntry, usize)>)
    requires
        i <= lines@.len(),
    ensures
        match r {
            Option::Some((e, j)) => i < j <= lines@.len() && p_meta_entry(
                seq_views(lines@).skip(i as int),
            ) == Option::Some((meta_entry_view(e), seq_views(lines@).skip(j as int))),
            Option::None => p_meta_entry(seq_views(lines@).skip(i as int)) is None,
        },
{
    let (key, i1) = match pe_scalar(lines, i, "- key: ") {
        Some(x) => x,
        None => {
            return None;
        },
    };
    let (value, i2) = match pe_meta_value(lines, i1) {
        Some(x) => x,
        None => {
            return None;
        },
    };
    Some((MetaEntry { key, value }, i2))
}

/// Parse `n` metadata entry records.
fn pe_meta_entries(lines: &Vec<String>, i: usize, n: u64) -> (r: Option<(Vec<MetaEntry>, usize)>)
    requires
        i <= lines@.len(),
    ensures
        match r {
            Option::Some((es, j)) => i <= j <= lines@.len() && p_meta_entries(
                seq_views(lines@).skip(i as int),
                n as int,
            ) == Option::Some(
                (
                    Seq::new(es@.len(), |q: int| meta_entry_view(es@[q])),
                    seq_views(lines@).skip(j as int),
                ),
            ),
            Option::None => p_meta_entries(seq_views(lines@).skip(i as int), n as int) is None,
        },
{
    let ghost lv = seq_views(lines@);
    let mut acc: Vec<MetaEntry> = Vec::new();
    let mut cur = i;
    let mut k: u64 = 0;
    proof {
        assert(Seq::new(acc@.len(), |q: int| meta_entry_view(acc@[q])) + p_meta_entries(
            lv.skip(i as int),
            n as int,
        ).unwrap().0 =~= p_meta_entries(lv.skip(i as int), n as int).unwrap().0);
    }
    while k < n
        invariant
            i <= cur <= lines@.len(),
            0 <= k <= n,
            lv == seq_views(lines@),
            p_meta_entries(lv.skip(i as int), n as int) == (match p_meta_entries(
                lv.skip(cur as int),
                (n - k) as int,
            ) {
                Option::Some((es, rest)) => Option::Some(
                    (Seq::new(acc@.len(), |q: int| meta_entry_view(acc@[q])) + es, rest),
                ),
                Option::None => Option::<(Seq<MetaEntryV>, Seq<Seq<char>>)>::None,
            }),
        decreases n - k,
    {
        let ghost accv = Seq::new(acc@.len(), |q: int| meta_entry_view(acc@[q]));
        match pe_meta_entry(lines, cur) {
            Some((e, j)) => {
                proof {
                    let inner = p_meta_entries(lv.skip(j as int), (n - k - 1) as int);
                    if inner is Some {
                        assert(accv + (seq![meta_entry_view(e)] + inner.unwrap().0) =~= accv.push(
                            meta_entry_view(e),
                        ) + inner.unwrap().0);
                    }
                }
                acc.push(e);
                proof {
                    assert(Seq::new(acc@.len(), |q: int| meta_entry_view(acc@[q])) =~= accv.push(
                        meta_entry_view(acc@.last()),
                    ));
                }
                cur = j;
            },
            None => {
                return None;
            },
        }
        k = k + 1;
    }
    proof {
        let accv = Seq::new(acc@.len(), |q: int| meta_entry_view(acc@[q]));
        assert(accv + Seq::<MetaEntryV>::empty() =~= accv);
    }
    Some((acc, cur))
}

/// Parse one condition record.
fn pe_cond(lines: &Vec<String>, i: usize) -> (r: Option<(ConditionDefinition, usize)>)
    requires
        i <= lines@.len(),
    ensures
        match r {
            Option::Some((c, j)) => i < j <= lines@.len() && p_cond(
                seq_views(lines@).skip(i as int),
            ) == Option::Some((cond_view(c), seq_views(lines@).skip(j as int))),
            Option::None => p_cond(seq_views(lines@).skip(i as int)) is None,
        },
{
    let (id, i1) = match pe_scalar(lines, i, "- id: ") {
        Some(x) => x,
        None => {
            return None;
        },
    };
    let (description, i2) = match pe_scalar(lines, i1, "  description: ") {
        Some(x) => x,
        None => {
            return None;
        },
    };
    let (source, i3) = match pe_scalar(lines, i2, "  source: ") {
        Some(x) => x,
        None => {
            return None;
        },
    };
    let (operator, i4) = match pe_scalar(lines, i3, "  operator: ") {
        Some(x) => x,
        None => {
            return None;
        },
    };
    let (threshold, i5) = match pe_opt_amount(lines, i4, "  threshold: ") {
        Some(x) => x,
        None => {
            return None;
        },
    };
    Some((ConditionDefinition { id, description, source, operator, threshold }, i5))
}

/// Parse `n` condition records.
fn pe_conds(lines: &Vec<String>, i: usize, n: u64) -> (r: Option<
    (Vec<ConditionDefinition>, usize),
>)
    requires
        i <= lines@.len(),
    ensures
        match r {
            Option::Some((cs, j)) => i <= j <= lines@.len() && p_conds(
                seq_views(lines@).skip(i as int),
                n as int,
            ) == Option::Some(
                (
                    Seq::new(cs@.len(), |q: int| cond_view(cs@[q])),
                    seq_views(lines@).skip(j as int),
                ),
            ),
            Option::None => p_conds(seq_views(lines@).skip(i as int), n as int) is None,
        },
{
    let ghost lv = seq_views(lines@);
    let mut acc: Vec<ConditionDefinition> = Vec::new();
    let mut cur = i;
    let mut k: u64 = 0;
    proof {
        assert(Seq::new(acc@.len(), |q: int| cond_view(acc@[q])) + p_conds(
            lv.skip(i as int),
            n as int,
        ).unwrap().0 =~= p_conds(lv.skip(i as int), n as int).unwrap().0);
    }
    while k < n
        invariant
            i <= cur <= lines@.len(),
            0 <= k <= n,
            lv == seq_views(lines@),
            p_conds(lv.skip(i as int), n as int) == (match p_conds(
                lv.skip(cur as int),
                (n - k) as int,
            ) {
                Option::Some((cs, rest)) => Option::Some(
                    (Seq::new(acc@.len(), |q: int| cond_view(acc@[q])) + cs, rest),
                ),
                Option::None => Option::<(Seq<CondV>, Seq<Seq<char>>)>::None,
            }),
        decreases n - k,
    {
        let ghost accv = Seq::new(acc@.len(), |q: int| cond_view(acc@[q]));
        match pe_cond(lines, cur) {
            Some((c, j)) => {
                proof {
                    let inner = p_conds(lv.skip(j as int), (n - k - 1) as int);
                    if inner is Some {
                        assert(accv + (seq![cond_view(c)] + inner.unwrap().0) =~= accv.push(
                            cond_view(c),
                        ) + inner.unwrap().0);
                    }
                }
                acc.push(c);
                proof {
                    assert(Seq::new(acc@.len(), |q: int| cond_view(acc@[q])) =~= accv.push(
                        cond_view(acc@.last()),
                    ));
                }
                cur = j;
            },
            None => {
                return None;
            },
        }
        k = k + 1;
    }
    proof {
        let accv = Seq::new(acc@.len(), |q: int| cond_view(acc@[q]));
        assert(accv + Seq::<CondV>::empty() =~= accv);
    }
    Some((acc, cur))
}

/// Parse one oracle record.
fn pe_oracle(lines: &Vec<String>, i: usize) -> (r: Option<(OracleDefinition, usize)>)
    requires
        i <= lines@.len(),
    ensures
        match r {
            Option::Some((o, j)) => i < j <= lines@.len() && p_oracle(
                seq_views(lines@).skip(i as int),
            ) == Option::Some((oracle_view(o), seq_views(lines@).skip(j as int))),
            Option::None => p_oracle(seq_views(lines@).skip(i as int)) is None,
        },
{
    let (id, i1) = match pe_scalar(lines, i, "- id: ") {
        Some(x) => x,
        None => {
            return None;
        },
    };
    let (oracle_type, i2) = match pe_scalar(lines, i1, "  type: ") {
        Some(x) => x,
        None => {
            return None;
        },
    };
    let (endpoint, i3) = match pe_opt_str(lines, i2, "  endpoint: ") {
        Some(x) => x,
        None => {
            return None;
        },
    };
    let (refresh_rate, i4) = match pe_scalar(lines, i3, "  refresh_rate: ") {
        Some(x) => x,
        None => {
            return None;
        },
    };
    let (required, i5) = match pe_bool(lines, i4, "  required: ") {
        Some(x) => x,
        None => {
            return None;
        },
    };
    Some((OracleDefinition { id, oracle_type, endpoint, refresh_rate, required }, i5))
}

/// Parse `n` oracle records.
fn pe_oracles(lines: &Vec<String>, i: usize, n: u64) -> (r: Option<(Vec<OracleDefinition>, usize)>)
    requires
        i <= lines@.len(),
    ensures
        match r {
            Option::Some((os, j)) => i <= j <= lines@.len() && p_oracles(
                seq_views(lines@).skip(i as int),
                n as int,
            ) == Option::Some(
                (
                    Seq::new(os@.len(), |q: int| oracle_view(os@[q])),
                    seq_views(lines@).skip(j as int),
                ),
            ),
            Option::None => p_oracles(seq_views(lines@).skip(i as int), n as int) is None,
        },
{
    let ghost lv = seq_views(lines@);
    let mut acc: Vec<OracleDefinition> = Vec::new();
    let mut cur = i;
    let mut k: u64 = 0;
    proof {
        assert(Seq::new(acc@.len(), |q: int| oracle_view(acc@[q])) + p_oracles(
            lv.skip(i as int),
            n as int,
        ).unwrap().0 =~= p_oracles(lv.skip(i as int), n as int).unwrap().0);
    }
    while k < n
        invariant
            i <= cur <= lines@.len(),
            0 <= k <= n,
            lv == seq_views(lines@),
            p_oracles(lv.skip(i as int), n as int) == (match p_oracles(
                lv.skip(cur as int),
                (n - k) as int,
            ) {
                Option::Some((os, rest)) => Option::Some(
                    (Seq::new(acc@.len(), |q: int| oracle_view(acc@[q])) + os, rest),
                ),
                Option::None => Option::<(Seq<OracleV>, Seq<Seq<char>>)>::None,
            }),
        decreases n - k,
    {
        let ghost accv = Seq::new(acc@.len(), |q: int| oracle_view(acc@[q]));
        match pe_oracle(lines, cur) {
            Some((o, j)) => {
                proof {
                    let inner = p_oracles(lv.skip(j as int), (n - k - 1) as int);
                    if inner is Some {
                        assert(accv + (seq![oracle_view(o)] + inner.unwrap().0) =~= accv.push(
                            oracle_view(o),
                        ) + inner.unwrap().0);
                    }
                }
                acc.push(o);
                proof {
                    assert(Seq::new(acc@.len(), |q: int| oracle_view(acc@[q])) =~= accv.push(
                        oracle_view(acc@.last()),
                    ));
                }
                cur = j;
            },
            None => {
                return None;
            },
        }
        k = k + 1;
    }
    proof {
        let accv = Seq::new(acc@.len(), |q: int| oracle_view(acc@[q]));
        assert(accv + Seq::<OracleV>::empty() =~= accv);
    }
    Some((acc, cur))
}

/// Parse an optional string list.
fn pe_opt_items(lines: &Vec<String>, i: usize, prefix: &str) -> (r: Option<
    (Option<Vec<String>>, usize),
>)
    requires
        i <= lines@.len(),
    ensures
        match r {
            Option::Some((o, j)) => i <= j <= lines@.len() && p_opt_items(
                seq_views(lines@).skip(i as int),
                prefix@,
            ) == Option::Some(
                (
                    match o {
                        Option::Some(l) => Option::Some(Seq::new(l@.len(), |q: int| l@[q]@)),
                        Option::None => Option::None,
                    },
                    seq_views(lines@).skip(j as int),
                ),
            ),
            Option::None => p_opt_items(seq_views(lines@).skip(i as int), prefix@) is None,
        },
{
    match pe_opt_count(lines, i, prefix) {
        Some((None, j)) => Some((None, j)),
        Some((Some(n), j)) => {
            match pe_items(lines, j, n) {
                Some((xs, j2)) => Some((Some(xs), j2)),
                None => None,
            }
        },
        None => None,
    }
}

/// Parse one action record.
fn pe_action(lines: &Vec<String>, i: usize) -> (r: Option<(ActionDefinition, usize)>)
    requires
        i <= lines@.len(),
    ensures
        match r {
            Option::Some((a, j)) => i < j <= lines@.len() && p_action(
                seq_views(lines@).skip(i as int),
            ) == Option::Some((action_view(a), seq_views(lines@).skip(j as int))),
            Option::None => p_action(seq_views(lines@).skip(i as int)) is None,
        },
{
    let (action, i1) = match pe_scalar(lines, i, "- action: ") {
        Some(x) => x,
        None => {
            return None;
        },
    };
    let (n, i2) = match pe_count(lines, i1, "  params: ") {
        Some(x) => x,
        None => {
            return None;
        },
    };
    let (params, i3) = match pe_meta_entries(lines, i2, n) {
        Some(x) => x,
        None => {
            return None;
        },
    };
    Some((ActionDefinition { action, params }, i3))
}

/// Parse `n` action records.
fn pe_actions(lines: &Vec<String>, i: usize, n: u64) -> (r: Option<(Vec<ActionDefinition>, usize)>)
    requires
        i <= lines@.len(),
    ensures
        match r {
            Option::Some((az, j)) => i <= j <= lines@.len() && p_actions(
                seq_views(lines@).skip(i as int),
                n as int,
            ) == Option::Some(
                (
                    Seq::new(az@.len(), |q: int| action_view(az@[q])),
                    seq_views(lines@).skip(j as int),
                ),
            ),
            Option::None => p_actions(seq_views(lines@).skip(i as int), n as int) is None,
        },
{
    let ghost lv = seq_views(lines@);
    let mut acc: Vec<ActionDefinition> = Vec::new();
    let mut cur = i;
    let mut k: u64 = 0;
    proof {
        assert(Seq::new(acc@.len(), |q: int| action_view(acc@[q])) + p_actions(
            lv.skip(i as int),
            n as int,
        ).unwrap().0 =~= p_actions(lv.skip(i as int), n as int).unwrap().0);
    }
    while k < n
        invariant
            i <= cur <= lines@.len(),
            0 <= k <= n,
            lv == seq_views(lines@),
            p_actions(lv.skip(i as int), n as int) == (match p_actions(
                lv.skip(cur as int),
                (n - k) as int,
            ) {
                Option::Some((az, rest)) => Option::Some(
                    (Seq::new(acc@.len(), |q: int| action_view(acc@[q])) + az, rest),
                ),
                Option::None => Option::<(Seq<ActionV>, Seq<Seq<char>>)>::None,
            }),
        decreases n - k,
    {
        let ghost accv = Seq::new(acc@.len(), |q: int| action_view(acc@[q]));
        match pe_action(lines, cur) {
            Some((a, j)) => {
                proof {
                    let inner = p_actions(lv.skip(j as int), (n - k - 1) as int);
                    if inner is Some {
                        assert(accv + (seq![action_view(a)] + inner.unwrap().0) =~= accv.push(
                            action_view(a),
                        ) + inner.unwrap().0);
                    }
                }
                acc.push(a);
                proof {
                    assert(Seq::new(acc@.len(), |q: int| action_view(acc@[q])) =~= accv.push(
                        action_view(acc@.last()),
                    ));
                }
                cur = j;
            },
            None => {
                return None;
            },
        }
        k = k + 1;
    }
    proof {
        let accv = Seq::new(acc@.len(), |q: int| action_view(acc@[q]));
        assert(accv + Seq::<ActionV>::empty() =~= accv);
    }
    Some((acc, cur))
}

/// Parse one rule record.
fn pe_rule(lines: &Vec<String>, i: usize) -> (r: Option<(RuleDefinition, usize)>)
    requires
        i <= lines@.len(),
    ensures
        match r {
            Option::Some((x, j)) => i < j <= lines@.len() && p_rule(
                seq_views(lines@).skip(i as int),
            ) == Option::Some((rule_view(x), seq_views(lines@).skip(j as int))),
            Option::None => p_rule(seq_views(lines@).skip(i as int)) is None,
        },
{
    let (rule_id, i1) = match pe_scalar(lines, i, "- rule_id: ") {
        Some(x) => x,
        None => {
            return None;
        },
    };
    let (name, i2) = match pe_scalar(lines, i1, "  name: ") {
        Some(x) => x,
        None => {
            return None;
        },
    };
    let (trigger, i3) = match pe_scalar(lines, i2, "  trigger: ") {
        Some(x) => x,
        None => {
            return None;
        },
    };
    let (all_of, i4) = match pe_opt_items(lines, i3, "  all_of: ") {
        Some(x) => x,
        None => {
            return None;
        },
    };
    let (any_of, i5) = match pe_opt_items(lines, i4, "  any_of: ") {
        Some(x) => x,
        None => {
            return None;
        },
    };
    let (n, i6) = match pe_count(lines, i5, "  actions: ") {
        Some(x) => x,
        None => {
            return None;
        },
    };
    let (actions, i7) = match pe_actions(lines, i6, n) {
        Some(x) => x,
        None => {
            return None;
        },
    };
    Some(
        (
            RuleDefinition {
                rule_id,
                name,
                trigger,
                conditions: RuleConditions { all_of, any_of },
                actions,
            },
            i7,
        ),
    )
}

/// Parse `n` rule records.
fn pe_rules(lines: &Vec<String>, i: usize, n: u64) -> (r: Option<(Vec<RuleDefinition>, usize)>)
    requires
        i <= lines@.len(),
    ensures
        match r {
            Option::Some((rs, j)) => i <= j <= lines@.len() && p_rules(
                seq_views(lines@).skip(i as int),
                n as int,
            ) == Option::Some(
                (
                    Seq::new(rs@.len(), |q: int| rule_view(rs@[q])),
                    seq_views(lines@).skip(j as int),
                ),
            ),
            Option::None => p_rules(seq_views(lines@).skip(i as int), n as int) is None,
        },
{
    let ghost lv = seq_views(lines@);
    let mut acc: Vec<RuleDefinition> = Vec::new();
    let mut cur = i;
    let mut k: u64 = 0;
    proof {
        assert(Seq::new(acc@.len(), |q: int| rule_view(acc@[q])) + p_rules(
            lv.skip(i as int),
            n as int,
        ).unwrap().0 =~= p_rules(lv.skip(i as int), n as int).unwrap().0);
    }
    while k < n
        invariant
            i <= cur <= lines@.len(),
            0 <= k <= n,
            lv == seq_views(lines@),
            p_rules(lv.skip(i as int), n as int) == (match p_rules(
                lv.skip(cur as int),
                (n - k) as int,
            ) {
                Option::Some((rs, rest)) => Option::Some(
                    (Seq::new(acc@.len(), |q: int| rule_view(acc@[q])) + rs, rest),
                ),
                Option::None => Option::<(Seq<RuleV>, Seq<Seq<char>>)>::None,
            }),
        decreases n - k,
    {
        let ghost accv = Seq::new(acc@.len(), |q: int| rule_view(acc@[q]));
        match pe_rule(lines, cur) {
            Some((x, j)) => {
                proof {
                    let inner = p_rules(lv.skip(j as int), (n - k - 1) as int);
                    if inner is Some {
                        assert(accv + (seq![rule_view(x)] + inner.unwrap().0) =~= accv.push(
                            rule_view(x),
                        ) + inner.unwrap().0);
                    }
                }
                acc.push(x);
                proof {
                    assert(Seq::new(acc@.len(), |q: int| rule_view(acc@[q])) =~= accv.push(
                        rule_view(acc@.last()),
                    ));
                }
                cur = j;
            },
            None => {
                return None;
            },
        }
        k = k + 1;
    }
    proof {
        let accv = Seq::new(acc@.len(), |q: int| rule_view(acc@[q]));
        assert(accv + Seq::<RuleV>::empty() =~= accv);
    }
    Some((acc, cur))
}

/// The parsed head fields.
struct HeadParts {
    contract_id: String,
    version: String,
    standard: String,
    title: String,
    plain_english: String,
    what_it_does: String,
    who_its_for: String,
    when_it_executes: String,
    contract_type: String,
    category: String,
}

/// The view of parsed head fields.
spec fn head_view(h: HeadParts) -> HeadV {
    HeadV {
        contract_id: h.contract_id@,
        version: h.version@,
        standard: h.standard@,
        title: h.title@,
        plain_english: h.plain_english@,
        what_it_does: h.what_it_does@,
        who_its_for: h.who_its_for@,
        when_it_executes: h.when_it_executes@,
        contract_type: h.contract_type@,
        category: h.category@,
    }
}

/// The parsed middle fields.
struct MidParts {
    parties: Vec<PartyInfo>,
    effective: String,
    duration: String,
    renewal: String,
    extra: Vec<MetaEntry>,
}

/// The view of parsed middle fields.
spec fn mid_view(m: MidParts) -> MidV {
    MidV {
        parties: Seq::new(m.parties@.len(), |q: int| party_view(m.parties@[q])),
        effective: m.effective@,
        duration: m.duration@,
        renewal: m.renewal@,
        extra: Seq::new(m.extra@.len(), |q: int| meta_entry_view(m.extra@[q])),
    }
}

/// The view of parsed payment terms.
spec fn pay_view(p: PaymentTerms) -> PayV {
    PayV {
        structure: p.structure@,
        amount: p.amount@,
        currency: p.currency@,
        token: p.token@,
        blockchain: p.blockchain@,
        frequency: p.frequency@,
    }
}

/// The parsed tail fields.
struct TailParts {
    required: Vec<ConditionDefinition>,
    optional: Option<Vec<ConditionDefinition>>,
    oracles: Vec<OracleDefinition>,
    rules: Vec<RuleDefinition>,
}

/// The view of parsed tail fields.
spec fn tail_view(t: TailParts) -> TailV {
    TailV {
        required: Seq::new(t.required@.len(), |q: int| cond_view(t.required@[q])),
        optional: match t.optional {
            Option::Some(l) => Option::Some(Seq::new(l@.len(), |q: int| cond_view(l@[q]))),
            Option::None => Option::None,
        },
        oracles: Seq::new(t.oracles@.len(), |q: int| oracle_view(t.oracles@[q])),
        rules: Seq::new(t.rules@.len(), |q: int| rule_view(t.rules@[q])),
    }
}

/// Parse the head of a contract.
fn pe_head(lines: &Vec<String>, i: usize) -> (r: Option<(HeadParts, usize)>)
    requires
        i <= lines@.len(),
    ensures
        match r {
            Option::Some((h, j)) => i <= j <= lines@.len() && p_head(
                seq_views(lines@).skip(i as int),
            ) == Option::Some((head_view(h), seq_views(lines@).skip(j as int))),
            Option::None => p_head(seq_views(lines@).skip(i as int)) is None,
        },
{
    let (contract_id, i1) = match pe_scalar(lines, i, "contract_id: ") {
        Some(x) => x,
        None => {
            return None;
        },
    };
    let (version, i2) = match pe_scalar(lines, i1, "version: ") {
        Some(x) => x,
        None => {
            return None;
        },
    };
    let (standard, i3) = match pe_scalar(lines, i2, "standard: ") {
        Some(x) => x,
        None => {
            return None;
        },
    };
    let i4 = match pe_exact(lines, i3, "summary:") {
        Some(x) => x,
        None => {
            return None;
        },
    };
    let (title, i5) = match pe_scalar(lines, i4, "  title: ") {
        Some(x) => x,
        None => {
            return None;
        },
    };
    let (plain_english, i6) = match pe_scalar(lines, i5, "  plain_english: ") {
        Some(x) => x,
        None => {
            return None;
        },
    };
    let (what_it_does, i7) = match pe_scalar(lines, i6, "  what_it_does: ") {
        Some(x) => x,
        None => {
            return None;
        },
    };
    let (who_its_for, i8) = match pe_scalar(lines, i7, "  who_its_for: ") {
        Some(x) => x,
        None => {
            return None;
        },
    };
    let (when_it_executes, i9) = match pe_scalar(lines, i8, "  when_it_executes: ") {
        Some(x) => x,
        None => {
            return None;
        },
    };
    let i10 = match pe_exact(lines, i9, "metadata:") {
        Some(x) => x,
        None => {
            return None;
        },
    };
    let (contract_type, i11) = match pe_scalar(lines, i10, "  type: ") {
        Some(x) => x,
        None => {
            return None;
        },
    };
    let (category, i12) = match pe_scalar(lines, i11, "  category: ") {
        Some(x) => x,
        None => {
            return None;
        },
    };
    Some(
        (
            HeadParts {
                contract_id,
                version,
                standard,
                title,
                plain_english,
                what_it_does,
                who_its_for,
                when_it_executes,
                contract_type,
                category,
            },
            i12,
        ),
    )
}

/// Parse the middle of a contract.
fn pe_mid(lines: &Vec<String>, i: usize) -> (r: Option<(MidParts, usize)>)
    requires
        i <= lines@.len(),
    ensures
        match r {
            Option::Some((m, j)) => i <= j <= lines@.len() && p_mid(
                seq_views(lines@).skip(i as int),
            ) == Option::Some((mid_view(m), seq_views(lines@).skip(j as int))),
            Option::None => p_mid(seq_views(lines@).skip(i as int)) is None,
        },
{
    let (n, i1) = match pe_count(lines, i, "  parties: ") {
        Some(x) => x,
        None => {
            return None;
        },
    };
    let (parties, i2) = match pe_parties(lines, i1, n) {
        Some(x) => x,
        None => {
            return None;
        },
    };
    let (effective, i3) = match pe_scalar(lines, i2, "  effective: ") {
        Some(x) => x,
        None => {
            return None;
        },
    };
    let (duration, i4) = match pe_scalar(lines, i3, "  duration: ") {
        Some(x) => x,
        None => {
            return None;
        },
    };
    let (renewal, i5) = match pe_scalar(lines, i4, "  renewal: ") {
        Some(x) => x,
        None => {
            return None;
        },
    };
    let (m, i6) = match pe_count(lines, i5, "  extra: ") {
        Some(x) => x,
        None => {
            return None;
        },
    };
    let (extra, i7) = match pe_meta_entries(lines, i6, m) {
        Some(x) => x,
        None => {
            return None;
        },
    };
    Some((MidParts { parties, effective, duration, renewal, extra }, i7))
}

/// Parse the payment section of a contract.
fn pe_pay(lines: &Vec<String>, i: usize) -> (r: Option<(PaymentTerms, usize)>)
    requires
        i <= lines@.len(),
    ensures
        match r {
            Option::Some((p, j)) => i <= j <= lines@.len() && p_pay(
                seq_views(lines@).skip(i as int),
            ) == Option::Some((pay_view(p), seq_views(lines@).skip(j as int))),
            Option::None => p_pay(seq_views(lines@).skip(i as int)) is None,
        },
{
    let i1 = match pe_exact(lines, i, "payment:") {
        Some(x) => x,
        None => {
            return None;
        },
    };
    let (structure, i2) = match pe_scalar(lines, i1, "  structure: ") {
        Some(x) => x,
        None => {
            return None;
        },
    };
    let (amount, i3) = match pe_amount(lines, i2, "  amount: ") {
        Some(x) => x,
        None => {
            return None;
        },
    };
    let (currency, i4) = match pe_scalar(lines, i3, "  currency: ") {
        Some(x) => x,
        None => {
            return None;
        },
    };
    let (token, i5) = match pe_scalar(lines, i4, "  token: ") {
        Some(x) => x,
        None => {
            return None;
        },
    };
    let (blockchain, i6) = match pe_scalar(lines, i5, "  blockchain: ") {
        Some(x) => x,
        None => {
            return None;
        },
    };
    let (frequency, i7) = match pe_scalar(lines, i6, "  frequency: ") {
        Some(x) => x,
        None => {
            return None;
        },
    };
    Some((PaymentTerms { structure, amount, currency, token, blockchain, frequency }, i7))
}

/// Parse the tail of a contract.
fn pe_tail(lines: &Vec<String>, i: usize) -> (r: Option<(TailParts, usize)>)
    requires
        i <= lines@.len(),
    ensures
        match r {
            Option::Some((t, j)) => i <= j <= lines@.len() && p_tail(
                seq_views(lines@).skip(i as int),
            ) == Option::Some((tail_view(t), seq_views(lines@).skip(j as int))),
            Option::None => p_tail(seq_views(lines@).skip(i as int)) is None,
        },
{
    let i1 = match pe_exact(lines, i, "conditions:") {
        Some(x) => x,
        None => {
            return None;
        },
    };
    let (n, i2) = match pe_count(lines, i1, "  required: ") {
        Some(x) => x,
        None => {
            return None;
        },
    };
    let (required, i3) = match pe_conds(lines, i2, n) {
        Some(x) => x,
        None => {
            return None;
        },
    };
    let (on, i4) = match pe_opt_count(lines, i3, "  optional: ") {
        Some(x) => x,
        None => {
            return None;
        },
    };
    let (optional, i5) = match on {
        Some(m) => {
            match pe_conds(lines, i4, m) {
                Some((ocs, j)) => (Some(ocs), j),
                None => {
                    return None;
                },
            }
        },
        None => (None, i4),
    };
    let (q, i6) = match pe_count(lines, i5, "oracles: ") {
        Some(x) => x,
        None => {
            return None;
        },
    };
    let (oracles, i7) = match pe_oracles(lines, i6, q) {
        Some(x) => x,
        None => {
            return None;
        },
    };
    let (w, i8) = match pe_count(lines, i7, "rules: ") {
        Some(x) => x,
        None => {
            return None;
        },
    };
    let (rules, i9) = match pe_rules(lines, i8, w) {
        Some(x) => x,
        None => {
            return None;
        },
    };
    Some((TailParts { required, optional, oracles, rules }, i9))
}

/// Parse a whole contract from its split lines.
pub fn parse_contract_lines(lines: &Vec<String>) -> (r: Option<UCLContract>)
    ensures
        match r {
            Option::Some(c) => p_contract(seq_views(lines@)) == Option::Some(ucl_view(c)),
            Option::None => p_contract(seq_views(lines@)) is None,
        },
{
    proof {
        assert(seq_views(lines@).skip(0) =~= seq_views(lines@));
    }
    let (h, i1) = match pe_head(lines, 0) {
        Some(x) => x,
        None => {
            return None;
        },
    };
    let (m, i2) = match pe_mid(lines, i1) {
        Some(x) => x,
        None => {
            return None;
        },
    };
    let (p, i3) = match pe_pay(lines, i2) {
        Some(x) => x,
        None => {
            return None;
        },
    };
    let (t, _i4) = match pe_tail(lines, i3) {
        Some(x) => x,
        None => {
            return None;
        },
    };
    let c = UCLContract {
        contract_id: h.contract_id,
        version: h.version,
        standard: h.standard,
        summary: ContractSummary {
            title: h.title,
            plain_english: h.plain_english,
            what_it_does: h.what_it_does,
            who_its_for: h.who_its_for,
            when_it_executes: h.when_it_executes,
        },
        metadata: ContractMetadata {
            contract_type: h.contract_type,
            category: h.category,
            parties: m.parties,
            dates: DateInfo { effective: m.effective, duration: m.duration, renewal: m.renewal },
            extra: m.extra,
        },
        payment: p,
        conditions: Conditions { required: t.required, optional: t.optional },
        oracles: t.oracles,
        rules: t.rules,
    };
    Some(c)
}

// ------------------------------------------------------------------
// Round trip: parsing recovers what the emitter wrote
// ------------------------------------------------------------------
/// Numeric fields of a metadata value fit their representations; list
/// lengths fit a count line. These hold of every value a program holds in
/// memory.
pub open spec fn wf_meta_val(v: MetaValV) -> bool {
    match v {
        MetaValV::Integer(i) => -0x8000000000000000 <= i <= 0x7fffffffffffffff,
        MetaValV::Decimal(a) => -0x8000000000000000 <= a <= 0x7fffffffffffffff,
        MetaValV::TextList(l) => l.len() <= 0xffffffffffffffff,
        _ => true,
    }
}

/// A well-formed metadata entry list.
pub open spec fn wf_meta_entries(es: Seq<MetaEntryV>) -> bool {
    es.len() <= 0xffffffffffffffff && forall|i: int|
        0 <= i < es.len() ==> wf_meta_val((#[trigger] es[i]).value)
}

/// A well-formed condition list.
pub open spec fn wf_conds(cs: Seq<CondV>) -> bool {
    cs.len() <= 0xffffffffffffffff && forall|i: int|
        0 <= i < cs.len() ==> ((#[trigger] cs[i]).threshold matches Option::Some(a)
            ==> -0x8000000000000000 <= a <= 0x7fffffffffffffff)
}

/// A well-formed rule.
pub open spec fn wf_rule(r: RuleV) -> bool {
    &&& (r.all_of matches Option::Some(l) ==> l.len() <= 0xffffffffffffffff)
    &&& (r.any_of matches Option::Some(l) ==> l.len() <= 0xffffffffffffffff)
    &&& r.actions.len() <= 0xffffffffffffffff
    &&& forall|i: int|
        0 <= i < r.actions.len() ==> (#[trigger] r.actions[i]).params.len()
            <= 0xffffffffffffffff && wf_meta_entries(r.actions[i].params)
}

/// A well-formed contract view: every number fits its representation and
/// every list length fits a count line.
pub open spec fn wf_ucl(v: UclV) -> bool {
    &&& -0x8000000000000000 <= v.amount <= 0x7fffffffffffffff
    &&& v.parties.len() <= 0xffffffffffffffff
    &&& wf_meta_entries(v.extra)
    &&& wf_conds(v.required)
    &&& (v.optional matches Option::Some(l) ==> wf_conds(l))
    &&& v.oracles.len() <= 0xffffffffffffffff
    &&& v.rules.len() <= 0xffffffffffffffff
    &&& forall|i: int| 0 <= i < v.rules.len() ==> wf_rule(#[trigger] v.rules[i])
}

/// Parsing a raw field line recovers its payload.
proof fn lemma_p_field_of(prefix: Seq<char>, payload: Seq<char>, rest: Seq<Seq<char>>)
    ensures
        p_field(seq![field_line(prefix, payload)] + rest, prefix) == Option::Some(
            (payload, rest),
        ),
{
    let lines = seq![field_line(prefix, payload)] + rest;
    assert(lines[0] == prefix + payload);
    assert(lines[0].take(prefix.len() as int) =~= prefix);
    assert(payload_of(lines[0], prefix) =~= payload);
    assert(lines.skip(1) =~= rest);
}

/// Parsing a scalar line recovers the escaped value.
proof fn lemma_p_scalar_of(prefix: Seq<char>, v: Seq<char>, rest: Seq<Seq<char>>)
    ensures
        p_scalar(seq![field_line(prefix, crate::text::escape_text(v))] + rest, prefix)
            == Option::Some((v, rest)),
{
    lemma_p_field_of(prefix, crate::text::escape_text(v), rest);
    crate::text::lemma_unescape_escape(v);
}

/// Parsing a fixed line consumes it.
proof fn lemma_p_exact_of(lit: Seq<char>, rest: Seq<Seq<char>>)
    ensures
        p_exact(seq![lit] + rest, lit) == Option::Some(rest),
{
    let lines = seq![lit] + rest;
    assert(lines[0] == lit);
    assert(lines.skip(1) =~= rest);
}

/// Parsing an optional scalar line recovers presence and value.
proof fn lemma_p_opt_str_of(prefix: Seq<char>, o: Option<Seq<char>>, rest: Seq<Seq<char>>)
    ensures
        p_opt_str(seq![field_line(prefix, crate::codec::opt_payload(o))] + rest, prefix)
            == Option::Some((o, rest)),
{
    lemma_p_field_of(prefix, crate::codec::opt_payload(o), rest);
    match o {
        Option::Some(v) => {
            crate::text::lemma_escape_marker_free(v);
            if crate::text::escape_text(v) == seq!['~'] {
                assert(crate::text::escape_text(v)[0] == '~');
                assert(false);
            }
            crate::text::lemma_unescape_escape(v);
        },
        Option::None => {},
    }
}

/// Parsing a count line recovers the count.
proof fn lemma_p_count_of(prefix: Seq<char>, n: nat, rest: Seq<Seq<char>>)
    requires
        n <= 0xffffffffffffffff,
    ensures
        p_count(seq![field_line(prefix, crate::num::dec_of(n))] + rest, prefix) == Option::Some(
            (n as int, rest),
        ),
{
    lemma_p_field_of(prefix, crate::num::dec_of(n), rest);
    crate::num::lemma_dec_of_digits(n);
    crate::num::lemma_dec_val_of(n);
}

/// Parsing an optional count line recovers presence and count.
proof fn lemma_p_opt_count_of(prefix: Seq<char>, o: Option<nat>, rest: Seq<Seq<char>>)
    requires
        o matches Option::Some(n) ==> n <= 0xffffffffffffffff,
    ensures
        p_opt_count(
            seq![
                field_line(
                    prefix,
                    crate::codec::opt_count_payload(
                        match o {
                            Option::Some(n) => Option::Some(n as int),
                            Option::None => Option::None,
                        },
                    ),
                ),
            ] + rest,
            prefix,
        ) == Option::Some(
            (
                match o {
                    Option::Some(n) => Option::Some(n as int),
                    Option::None => Option::None,
                },
                rest,
            ),
        ),
{
    match o {
        Option::Some(n) => {
            lemma_p_field_of(prefix, crate::num::dec_of(n), rest);
            crate::num::lemma_dec_of_digits(n);
            crate::num::lemma_dec_val_of(n);
            if crate::num::dec_of(n) == seq!['~'] {
                assert(is_dec_seq(crate::num::dec_of(n)));
                assert(crate::num::is_digit('~'));
                assert(false);
            }
        },
        Option::None => {
            lemma_p_field_of(prefix, seq!['~'], rest);
        },
    }
}

/// The first character of an amount rendering is a sign or a digit.
proof fn lemma_amount_text_first(a: int)
    ensures
        crate::amount::amount_text(a).len() >= 1,
        crate::amount::amount_text(a)[0] == '-' || crate::num::is_digit(
            crate::amount::amount_text(a)[0],
        ),
{
    if a < 0 {
        assert(crate::amount::amount_text(a)[0] == '-');
    } else {
        let u = a as nat;
        crate::num::lemma_dec_of_digits(u / 1000000);
        assert(crate::amount::amount_text(a)[0] == crate::num::dec_of(u / 1000000)[0]);
    }
}

/// Parsing an amount line recovers the amount.
proof fn lemma_p_amount_of(prefix: Seq<char>, a: int, rest: Seq<Seq<char>>)
    requires
        -0x8000000000000000 <= a <= 0x7fffffffffffffff,
    ensures
        p_amount(seq![field_line(prefix, crate::amount::amount_text(a))] + rest, prefix)
            == Option::Some((a, rest)),
{
    lemma_p_field_of(prefix, crate::amount::amount_text(a), rest);
    crate::amount::lemma_parse_amount_text(a);
}

/// Parsing an optional amount line recovers presence and amount.
proof fn lemma_p_opt_amount_of(prefix: Seq<char>, o: Option<int>, rest: Seq<Seq<char>>)
    requires
        o matches Option::Some(a) ==> -0x8000000000000000 <= a <= 0x7fffffffffffffff,
    ensures
        p_opt_amount(seq![field_line(prefix, crate::codec::opt_amount_payload(o))] + rest, prefix)
            == Option::Some((o, rest)),
{
    lemma_p_field_of(prefix, crate::codec::opt_amount_payload(o), rest);
    match o {
        Option::Some(a) => {
            lemma_amount_text_first(a);
            if crate::amount::amount_text(a) == seq!['~'] {
                assert(crate::amount::amount_text(a)[0] == '~');
                assert(crate::num::digit_val('~') == 10);
                assert(false);
            }
            crate::amount::lemma_parse_amount_text(a);
        },
        Option::None => {},
    }
}

/// Parsing a boolean line recovers the flag.
proof fn lemma_p_bool_of(prefix: Seq<char>, b: bool, rest: Seq<Seq<char>>)
    ensures
        p_bool(seq![field_line(prefix, crate::codec::bool_text(b))] + rest, prefix)
            == Option::Some((b, rest)),
{
    lemma_p_field_of(prefix, crate::codec::bool_text(b), rest);
    reveal_strlit("true");
    reveal_strlit("false");
    assert("true"@.len() == 4);
    assert("false"@.len() == 5);
}

/// Parsing an integer line recovers the integer.
proof fn lemma_p_int_of(prefix: Seq<char>, i: int, rest: Seq<Seq<char>>)
    requires
        -0x8000000000000000 <= i <= 0x7fffffffffffffff,
    ensures
        p_int(seq![field_line(prefix, crate::codec::int_text(i))] + rest, prefix) == Option::Some(
            (i, rest),
        ),
{
    lemma_p_field_of(prefix, crate::codec::int_text(i), rest);
    let payload = crate::codec::int_text(i);
    if i < 0 {
        let mag = (-i) as nat;
        crate::num::lemma_dec_of_digits(mag);
        crate::num::lemma_dec_val_of(mag);
        assert(payload[0] == '-');
        assert(payload.skip(1) =~= crate::num::dec_of(mag));
    } else {
        crate::num::lemma_dec_of_digits(i as nat);
        crate::num::lemma_dec_val_of(i as nat);
        assert(crate::num::is_digit(payload[0]));
        assert(crate::num::digit_val('-') == 10);
    }
}

/// Parsing one emitted party record recovers it.
proof fn lemma_p_party_of(p: PartyV, rest: Seq<Seq<char>>)
    ensures
        p_party(crate::codec::party_lines(p) + rest) == Option::Some((p, rest)),
{
    let l1 = field_line("- role: "@, crate::text::escape_text(p.role));
    let l2 = field_line("  identifier: "@, crate::text::escape_text(p.identifier));
    let l3 = field_line("  name: "@, crate::codec::opt_payload(p.name));
    let lines = crate::codec::party_lines(p) + rest;
    assert(lines =~= seq![l1] + (seq![l2] + (seq![l3] + rest)));
    lemma_p_scalar_of("- role: "@, p.role, seq![l2] + (seq![l3] + rest));
    lemma_p_scalar_of("  identifier: "@, p.identifier, seq![l3] + rest);
    lemma_p_opt_str_of("  name: "@, p.name, rest);
}

/// Parsing an emitted party list recovers it.
proof fn lemma_p_parties_of(ps: Seq<PartyV>, rest: Seq<Seq<char>>)
    ensures
        p_parties(crate::codec::parties_lines(ps) + rest, ps.len() as int) == Option::Some(
            (ps, rest),
        ),
    decreases ps.len(),
{
    if ps.len() == 0 {
        assert(crate::codec::parties_lines(ps) + rest =~= rest);
    } else {
        let tail = ps.subrange(1, ps.len() as int);
        assert(crate::codec::parties_lines(ps) + rest =~= crate::codec::party_lines(ps[0]) + (
        crate::codec::parties_lines(tail) + rest));
        lemma_p_party_of(ps[0], crate::codec::parties_lines(tail) + rest);
        lemma_p_parties_of(tail, rest);
        assert(seq![ps[0]] + tail =~= ps);
    }
}

/// Parsing an emitted item list recovers it.
proof fn lemma_p_items_of(items: Seq<Seq<char>>, rest: Seq<Seq<char>>)
    ensures
        p_items(crate::codec::item_lines(items) + rest, items.len() as int) == Option::Some(
            (items, rest),
        ),
    decreases items.len(),
{
    if items.len() == 0 {
        assert(crate::codec::item_lines(items) + rest =~= rest);
    } else {
        let tail = items.subrange(1, items.len() as int);
        assert(crate::codec::item_lines(items) + rest =~= seq![
            field_line("  - "@, crate::text::escape_text(items[0])),
        ] + (crate::codec::item_lines(tail) + rest));
        lemma_p_scalar_of("  - "@, items[0], crate::codec::item_lines(tail) + rest);
        lemma_p_items_of(tail, rest);
        assert(seq![items[0]] + tail =~= items);
    }
}

/// Parsing one emitted metadata value recovers it; the kind prefixes are
/// pairwise distinguishable.
proof fn lemma_p_meta_value_of(v: MetaValV, rest: Seq<Seq<char>>)
    requires
        wf_meta_val(v),
    ensures
        p_meta_value(crate::codec::meta_val_lines(v) + rest) == Option::Some((v, rest)),
{
    reveal_strlit("  text: ");
    reveal_strlit("  int: ");
    reveal_strlit("  dec: ");
    reveal_strlit("  flag: ");
    reveal_strlit("  items: ");
    assert("  text: "@.len() == 8);
    assert("  int: "@.len() == 7);
    assert("  dec: "@.len() == 7);
    assert("  flag: "@.len() == 8);
    assert("  items: "@.len() == 9);
    let lines = crate::codec::meta_val_lines(v) + rest;
    match v {
        MetaValV::Text(s) => {
            assert(lines =~= seq![field_line("  text: "@, crate::text::escape_text(s))] + rest);
            lemma_p_scalar_of("  text: "@, s, rest);
            assert(has_prefix(lines[0], "  text: "@)) by {
                assert(lines[0].take(8) =~= "  text: "@);
            }
        },
        MetaValV::Integer(i) => {
            assert(lines =~= seq![field_line("  int: "@, crate::codec::int_text(i))] + rest);
            lemma_p_int_of("  int: "@, i, rest);
            assert(lines[0][2] == 'i');
            if has_prefix(lines[0], "  text: "@) {
                assert(lines[0].take(8)[2] == 't');
                assert(false);
            }
            assert(has_prefix(lines[0], "  int: "@)) by {
                assert(lines[0].take(7) =~= "  int: "@);
            }
        },
        MetaValV::Decimal(a) => {
            assert(lines =~= seq![field_line("  dec: "@, crate::amount::amount_text(a))] + rest);
            lemma_p_amount_of("  dec: "@, a, rest);
            assert(lines[0][2] == 'd');
            if has_prefix(lines[0], "  text: "@) {
                assert(lines[0].take(8)[2] == 't');
                assert(false);
            }
            if has_prefix(lines[0], "  int: "@) {
                assert(lines[0].take(7)[2] == 'i');
                assert(false);
            }
            assert(has_prefix(lines[0], "  dec: "@)) by {
                assert(lines[0].take(7) =~= "  dec: "@);
            }
        },
        MetaValV::Flag(b) => {
            assert(lines =~= seq![field_line("  flag: "@, crate::codec::bool_text(b))] + rest);
            lemma_p_bool_of("  flag: "@, b, rest);
            assert(lines[0][2] == 'f');
            if has_prefix(lines[0], "  text: "@) {
                assert(lines[0].take(8)[2] == 't');
                assert(false);
            }
            if has_prefix(lines[0], "  int: "@) {
                assert(lines[0].take(7)[2] == 'i');
                assert(false);
            }
            if has_prefix(lines[0], "  dec: "@) {
                assert(lines[0].take(7)[2] == 'd');
                assert(false);
            }
            assert(has_prefix(lines[0], "  flag: "@)) by {
                assert(lines[0].take(8) =~= "  flag: "@);
            }
        },
        MetaValV::TextList(l) => {
            let count_line = field_line("  items: "@, crate::num::dec_of(l.len()));
            assert(lines =~= seq![count_line] + (crate::codec::item_lines(l) + rest));
            lemma_p_count_of("  items: "@, l.len(), crate::codec::item_lines(l) + rest);
            lemma_p_items_of(l, rest);
            assert(lines[0][2] == 'i');
            assert(lines[0][3] == 't');
            if has_prefix(lines[0], "  text: "@) {
                assert(lines[0].take(8)[2] == 't');
                assert(false);
            }
            if has_prefix(lines[0], "  int: "@) {
                assert(lines[0].take(7)[3] == 'n');
                assert(false);
            }
            if has_prefix(lines[0], "  dec: "@) {
                assert(lines[0].take(7)[2] == 'd');
                assert(false);
            }
            if has_prefix(lines[0], "  flag: "@) {
                assert(lines[0].take(8)[2] == 'f');
                assert(false);
            }
            assert(has_prefix(lines[0], "  items: "@)) by {
                assert(lines[0].take(9) =~= "  items: "@);
            }
        },
    }
}

/// Parsing one emitted metadata entry recovers it.
proof fn lemma_p_meta_entry_of(e: MetaEntryV, rest: Seq<Seq<char>>)
    requires
        wf_meta_val(e.value),
    ensures
        p_meta_entry(crate::codec::meta_entry_lines(e) + rest) == Option::Some((e, rest)),
{
    let lines = crate::codec::meta_entry_lines(e) + rest;
    assert(lines =~= seq![field_line("- key: "@, crate::text::escape_text(e.key))] + (
    crate::codec::meta_val_lines(e.value) + rest));
    lemma_p_scalar_of("- key: "@, e.key, crate::codec::meta_val_lines(e.value) + rest);
    lemma_p_meta_value_of(e.value, rest);
}

/// Parsing an emitted metadata entry list recovers it.
proof fn lemma_p_meta_entries_of(es: Seq<MetaEntryV>, rest: Seq<Seq<char>>)
    requires
        forall|i: int| 0 <= i < es.len() ==> wf_meta_val((#[trigger] es[i]).value),
    ensures
        p_meta_entries(crate::codec::meta_entries_lines(es) + rest, es.len() as int)
            == Option::Some((es, rest)),
    decreases es.len(),
{
    if es.len() == 0 {
        assert(crate::codec::meta_entries_lines(es) + rest =~= rest);
    } else {
        let tail = es.subrange(1, es.len() as int);
        assert(crate::codec::meta_entries_lines(es) + rest =~= crate::codec::meta_entry_lines(
            es[0],
        ) + (crate::codec::meta_entries_lines(tail) + rest));
        assert(wf_meta_val(es[0].value));
        lemma_p_meta_entry_of(es[0], crate::codec::meta_entries_lines(tail) + rest);
        lemma_p_meta_entries_of(tail, rest);
        assert(seq![es[0]] + tail =~= es);
    }
}

/// Parsing one emitted condition recovers it.
proof fn lemma_p_cond_of(c: CondV, rest: Seq<Seq<char>>)
    requires
        c.threshold matches Option::Some(a) ==> -0x8000000000000000 <= a <= 0x7fffffffffffffff,
    ensures
        p_cond(crate::codec::cond_lines(c) + rest) == Option::Some((c, rest)),
{
    let l1 = field_line("- id: "@, crate::text::escape_text(c.id));
    let l2 = field_line("  description: "@, crate::text::escape_text(c.description));
    let l3 = field_line("  source: "@, crate::text::escape_text(c.source));
    let l4 = field_line("  operator: "@, crate::text::escape_text(c.operator));
    let l5 = field_line("  threshold: "@, crate::codec::opt_amount_payload(c.threshold));
    let lines = crate::codec::cond_lines(c) + rest;
    assert(lines =~= seq![l1] + (seq![l2] + (seq![l3] + (seq![l4] + (seq![l5] + rest)))));
    lemma_p_scalar_of("- id: "@, c.id, seq![l2] + (seq![l3] + (seq![l4] + (seq![l5] + rest))));
    lemma_p_scalar_of("  description: "@, c.description, seq![l3] + (seq![l4] + (seq![l5]
        + rest)));
    lemma_p_scalar_of("  source: "@, c.source, seq![l4] + (seq![l5] + rest));
    lemma_p_scalar_of("  operator: "@, c.operator, seq![l5] + rest);
    lemma_p_opt_amount_of("  threshold: "@, c.threshold, rest);
}

/// Parsing an emitted condition list recovers it.
proof fn lemma_p_conds_of(cs: Seq<CondV>, rest: Seq<Seq<char>>)
    requires
        wf_conds(cs),
    ensures
        p_conds(crate::codec::conds_lines(cs) + rest, cs.len() as int) == Option::Some(
            (cs, rest),
        ),
    decreases cs.len(),
{
    if cs.len() == 0 {
        assert(crate::codec::conds_lines(cs) + rest =~= rest);
    } else {
        let tail = cs.subrange(1, cs.len() as int);
        assert(crate::codec::conds_lines(cs) + rest =~= crate::codec::cond_lines(cs[0]) + (
        crate::codec::conds_lines(tail) + rest));
        assert(cs[0].threshold matches Option::Some(a) ==> -0x8000000000000000 <= a
            <= 0x7fffffffffffffff);
        lemma_p_cond_of(cs[0], crate::codec::conds_lines(tail) + rest);
        assert(wf_conds(tail)) by {
            assert(forall|i: int| 0 <= i < tail.len() ==> tail[i] == cs[i + 1]);
        }
        lemma_p_conds_of(tail, rest);
        assert(seq![cs[0]] + tail =~= cs);
    }
}

/// Parsing one emitted oracle recovers it.
proof fn lemma_p_oracle_of(o: OracleV, rest: Seq<Seq<char>>)
    ensures
        p_oracle(crate::codec::oracle_lines(o) + rest) == Option::Some((o, rest)),
{
    let l1 = field_line("- id: "@, crate::text::escape_text(o.id));
    let l2 = field_line("  type: "@, crate::text::escape_text(o.oracle_type));
    let l3 = field_line("  endpoint: "@, crate::codec::opt_payload(o.endpoint));
    let l4 = field_line("  refresh_rate: "@, crate::text::escape_text(o.refresh_rate));
    let l5 = field_line("  required: "@, crate::codec::bool_text(o.required));
    let lines = crate::codec::oracle_lines(o) + rest;
    assert(lines =~= seq![l1] + (seq![l2] + (seq![l3] + (seq![l4] + (seq![l5] + rest)))));
    lemma_p_scalar_of("- id: "@, o.id, seq![l2] + (seq![l3] + (seq![l4] + (seq![l5] + rest))));
    lemma_p_scalar_of("  type: "@, o.oracle_type, seq![l3] + (seq![l4] + (seq![l5] + rest)));
    lemma_p_opt_str_of("  endpoint: "@, o.endpoint, seq![l4] + (seq![l5] + rest));
    lemma_p_scalar_of("  refresh_rate: "@, o.refresh_rate, seq![l5] + rest);
    lemma_p_bool_of("  required: "@, o.required, rest);
}

/// Parsing an emitted oracle list recovers it.
proof fn lemma_p_oracles_of(os: Seq<OracleV>, rest: Seq<Seq<char>>)
    ensures
        p_oracles(crate::codec::oracles_lines(os) + rest, os.len() as int) == Option::Some(
            (os, rest),
        ),
    decreases os.len(),
{
    if os.len() == 0 {
        assert(crate::codec::oracles_lines(os) + rest =~= rest);
    } else {
        let tail = os.subrange(1, os.len() as int);
        assert(crate::codec::oracles_lines(os) + rest =~= crate::codec::oracle_lines(os[0]) + (
        crate::codec::oracles_lines(tail) + rest));
        lemma_p_oracle_of(os[0], crate::codec::oracles_lines(tail) + rest);
        lemma_p_oracles_of(tail, rest);
        assert(seq![os[0]] + tail =~= os);
    }
}

/// Parsing an emitted optional string list recovers it.
proof fn lemma_p_opt_items_of(prefix: Seq<char>, o: Option<Seq<Seq<char>>>, rest: Seq<Seq<char>>)
    requires
        o matches Option::Some(l) ==> l.len() <= 0xffffffffffffffff,
    ensures
        p_opt_items(crate::codec::opt_items_lines(prefix, o) + rest, prefix) == Option::Some(
            (o, rest),
        ),
{
    match o {
        Option::Some(l) => {
            let count_line = field_line(prefix, crate::num::dec_of(l.len()));
            assert(crate::codec::opt_items_lines(prefix, o) + rest =~= seq![count_line] + (
            crate::codec::item_lines(l) + rest));
            lemma_p_opt_count_of(prefix, Option::Some(l.len()), crate::codec::item_lines(l)
                + rest);
            lemma_p_items_of(l, rest);
        },
        Option::None => {
            assert(crate::codec::opt_items_lines(prefix, o) + rest =~= seq![
                field_line(prefix, seq!['~']),
            ] + rest);
            lemma_p_opt_count_of(prefix, Option::None, rest);
        },
    }
}

/// Parsing one emitted action recovers it.
proof fn lemma_p_action_of(a: ActionV, rest: Seq<Seq<char>>)
    requires
        a.params.len() <= 0xffffffffffffffff,
        wf_meta_entries(a.params),
    ensures
        p_action(crate::codec::action_lines(a) + rest) == Option::Some((a, rest)),
{
    let l1 = field_line("- action: "@, crate::text::escape_text(a.action));
    let l2 = field_line("  params: "@, crate::num::dec_of(a.params.len()));
    let lines = crate::codec::action_lines(a) + rest;
    assert(lines =~= seq![l1] + (seq![l2] + (crate::codec::meta_entries_lines(a.params) + rest)));
    lemma_p_scalar_of("- action: "@, a.action, seq![l2] + (crate::codec::meta_entries_lines(
        a.params,
    ) + rest));
    lemma_p_count_of("  params: "@, a.params.len(), crate::codec::meta_entries_lines(a.params)
        + rest);
    lemma_p_meta_entries_of(a.params, rest);
}

/// Parsing an emitted action list recovers it.
proof fn lemma_p_actions_of(az: Seq<ActionV>, rest: Seq<Seq<char>>)
    requires
        forall|i: int|
            0 <= i < az.len() ==> (#[trigger] az[i]).params.len() <= 0xffffffffffffffff
                && wf_meta_entries(az[i].params),
    ensures
        p_actions(crate::codec::actions_lines(az) + rest, az.len() as int) == Option::Some(
            (az, rest),
        ),
    decreases az.len(),
{
    if az.len() == 0 {
        assert(crate::codec::actions_lines(az) + rest =~= rest);
    } else {
        let tail = az.subrange(1, az.len() as int);
        assert(crate::codec::actions_lines(az) + rest =~= crate::codec::action_lines(az[0]) + (
        crate::codec::actions_lines(tail) + rest));
        assert(az[0].params.len() <= 0xffffffffffffffff && wf_meta_entries(az[0].params));
        lemma_p_action_of(az[0], crate::codec::actions_lines(tail) + rest);
        lemma_p_actions_of(tail, rest);
        assert(seq![az[0]] + tail =~= az);
    }
}

/// Parsing one emitted rule recovers it.
proof fn lemma_p_rule_of(r: RuleV, rest: Seq<Seq<char>>)
    requires
        wf_rule(r),
    ensures
        p_rule(crate::codec::rule_lines(r) + rest) == Option::Some((r, rest)),
{
    let l1 = field_line("- rule_id: "@, crate::text::escape_text(r.rule_id));
    let l2 = field_line("  name: "@, crate::text::escape_text(r.name));
    let l3 = field_line("  trigger: "@, crate::text::escape_text(r.trigger));
    let all_lines = crate::codec::opt_items_lines("  all_of: "@, r.all_of);
    let any_lines = crate::codec::opt_items_lines("  any_of: "@, r.any_of);
    let lc = field_line("  actions: "@, crate::num::dec_of(r.actions.len()));
    let act_lines = crate::codec::actions_lines(r.actions);
    let lines = crate::codec::rule_lines(r) + rest;
    let s6 = act_lines + rest;
    let s5 = seq![lc] + s6;
    let s4 = any_lines + s5;
    let s3 = all_lines + s4;
    assert(lines =~= seq![l1] + (seq![l2] + (seq![l3] + s3)));
    lemma_p_scalar_of("- rule_id: "@, r.rule_id, seq![l2] + (seq![l3] + s3));
    lemma_p_scalar_of("  name: "@, r.name, seq![l3] + s3);
    lemma_p_scalar_of("  trigger: "@, r.trigger, s3);
    assert(s3 =~= crate::codec::opt_items_lines("  all_of: "@, r.all_of) + s4);
    lemma_p_opt_items_of("  all_of: "@, r.all_of, s4);
    assert(s4 =~= crate::codec::opt_items_lines("  any_of: "@, r.any_of) + s5);
    lemma_p_opt_items_of("  any_of: "@, r.any_of, s5);
    lemma_p_count_of("  actions: "@, r.actions.len(), s6);
    lemma_p_actions_of(r.actions, rest);
}

/// Parsing an emitted rule list recovers it.
#[verifier::rlimit(100)]
proof fn lemma_p_rules_of(rs: Seq<RuleV>, rest: Seq<Seq<char>>)
    requires
        forall|i: int| 0 <= i < rs.len() ==> wf_rule(#[trigger] rs[i]),
    ensures
        p_rules(crate::codec::rules_lines(rs) + rest, rs.len() as int) == Option::Some(
            (rs, rest),
        ),
    decreases rs.len(),
{
    if rs.len() == 0 {
        assert(crate::codec::rules_lines(rs) + rest =~= rest);
    } else {
        let tail = rs.subrange(1, rs.len() as int);
        assert(crate::codec::rules_lines(rs) + rest =~= crate::codec::rule_lines(rs[0]) + (
        crate::codec::rules_lines(tail) + rest));
        assert(wf_rule(rs[0]));
        lemma_p_rule_of(rs[0], crate::codec::rules_lines(tail) + rest);
        lemma_p_rules_of(tail, rest);
        assert(seq![rs[0]] + tail =~= rs);
    }
}

/// Parsing the emitted head lines recovers the head fields.
#[verifier::rlimit(100)]
proof fn lemma_p_head_of(v: UclV, rest: Seq<Seq<char>>)
    ensures
        p_head(crate::codec::head_lines(v) + rest) == Option::Some(
            (
                HeadV {
                    contract_id: v.contract_id,
                    version: v.version,
                    standard: v.standard,
                    title: v.title,
                    plain_english: v.plain_english,
                    what_it_does: v.what_it_does,
                    who_its_for: v.who_its_for,
                    when_it_executes: v.when_it_executes,
                    contract_type: v.contract_type,
                    category: v.category,
                },
                rest,
            ),
        ),
{
    let h11 = seq![field_line("  category: "@, crate::text::escape_text(v.category))] + rest;
    let h10 = seq![field_line("  type: "@, crate::text::escape_text(v.contract_type))] + h11;
    let h9 = seq!["metadata:"@] + h10;
    let h8 = seq![
        field_line("  when_it_executes: "@, crate::text::escape_text(v.when_it_executes)),
    ] + h9;
    let h7 = seq![field_line("  who_its_for: "@, crate::text::escape_text(v.who_its_for))] + h8;
    let h6 = seq![field_line("  what_it_does: "@, crate::text::escape_text(v.what_it_does))] + h7;
    let h5 = seq![field_line("  plain_english: "@, crate::text::escape_text(v.plain_english))]
        + h6;
    let h4 = seq![field_line("  title: "@, crate::text::escape_text(v.title))] + h5;
    let h3 = seq!["summary:"@] + h4;
    let h2 = seq![field_line("standard: "@, crate::text::escape_text(v.standard))] + h3;
    let h1 = seq![field_line("version: "@, crate::text::escape_text(v.version))] + h2;
    let h0 = seq![field_line("contract_id: "@, crate::text::escape_text(v.contract_id))] + h1;
    assert(crate::codec::head_lines(v) + rest =~= h0);
    lemma_p_scalar_of("contract_id: "@, v.contract_id, h1);
    lemma_p_scalar_of("version: "@, v.version, h2);
    lemma_p_scalar_of("standard: "@, v.standard, h3);
    lemma_p_exact_of("summary:"@, h4);
    lemma_p_scalar_of("  title: "@, v.title, h5);
    lemma_p_scalar_of("  plain_english: "@, v.plain_english, h6);
    lemma_p_scalar_of("  what_it_does: "@, v.what_it_does, h7);
    lemma_p_scalar_of("  who_its_for: "@, v.who_its_for, h8);
    lemma_p_scalar_of("  when_it_executes: "@, v.when_it_executes, h9);
    lemma_p_exact_of("metadata:"@, h10);
    lemma_p_scalar_of("  type: "@, v.contract_type, h11);
    lemma_p_scalar_of("  category: "@, v.category, rest);
}

/// Parsing the emitted middle lines recovers the middle fields.
#[verifier::rlimit(100)]
proof fn lemma_p_mid_of(v: UclV, rest: Seq<Seq<char>>)
    requires
        v.parties.len() <= 0xffffffffffffffff,
        wf_meta_entries(v.extra),
    ensures
        p_mid(crate::codec::mid_lines(v) + rest) == Option::Some(
            (
                MidV {
                    parties: v.parties,
                    effective: v.effective,
                    duration: v.duration,
                    renewal: v.renewal,
                    extra: v.extra,
                },
                rest,
            ),
        ),
{
    let m6 = crate::codec::meta_entries_lines(v.extra) + rest;
    let m5 = seq![field_line("  extra: "@, crate::num::dec_of(v.extra.len()))] + m6;
    let m4 = seq![field_line("  renewal: "@, crate::text::escape_text(v.renewal))] + m5;
    let m3 = seq![field_line("  duration: "@, crate::text::escape_text(v.duration))] + m4;
    let m2 = seq![field_line("  effective: "@, crate::text::escape_text(v.effective))] + m3;
    let m1 = crate::codec::parties_lines(v.parties) + m2;
    let m0 = seq![field_line("  parties: "@, crate::num::dec_of(v.parties.len()))] + m1;
    assert(crate::codec::mid_lines(v) + rest =~= m0);
    lemma_p_count_of("  parties: "@, v.parties.len(), m1);
    lemma_p_parties_of(v.parties, m2);
    lemma_p_scalar_of("  effective: "@, v.effective, m3);
    lemma_p_scalar_of("  duration: "@, v.duration, m4);
    lemma_p_scalar_of("  renewal: "@, v.renewal, m5);
    lemma_p_count_of("  extra: "@, v.extra.len(), m6);
    lemma_p_meta_entries_of(v.extra, rest);
}

/// Parsing the emitted payment lines recovers the payment fields.
#[verifier::rlimit(100)]
proof fn lemma_p_pay_of(v: UclV, rest: Seq<Seq<char>>)
    requires
        -0x8000000000000000 <= v.amount <= 0x7fffffffffffffff,
    ensures
        p_pay(crate::codec::pay_lines(v) + rest) == Option::Some(
            (
                PayV {
                    structure: v.structure,
                    amount: v.amount,
                    currency: v.currency,
                    token: v.token,
                    blockchain: v.blockchain,
                    frequency: v.frequency,
                },
                rest,
            ),
        ),
{
    let p6 = seq![field_line("  frequency: "@, crate::text::escape_text(v.frequency))] + rest;
    let p5 = seq![field_line("  blockchain: "@, crate::text::escape_text(v.blockchain))] + p6;
    let p4 = seq![field_line("  token: "@, crate::text::escape_text(v.token))] + p5;
    let p3 = seq![field_line("  currency: "@, crate::text::escape_text(v.currency))] + p4;
    let p2 = seq![field_line("  amount: "@, crate::amount::amount_text(v.amount))] + p3;
    let p1 = seq![field_line("  structure: "@, crate::text::escape_text(v.structure))] + p2;
    let p0 = seq!["payment:"@] + p1;
    assert(crate::codec::pay_lines(v) + rest =~= p0);
    lemma_p_exact_of("payment:"@, p1);
    lemma_p_scalar_of("  structure: "@, v.structure, p2);
    lemma_p_amount_of("  amount: "@, v.amount, p3);
    lemma_p_scalar_of("  currency: "@, v.currency, p4);
    lemma_p_scalar_of("  token: "@, v.token, p5);
    lemma_p_scalar_of("  blockchain: "@, v.blockchain, p6);
    lemma_p_scalar_of("  frequency: "@, v.frequency, rest);
}

/// Parsing the emitted tail lines recovers the tail fields.
#[verifier::rlimit(100)]
proof fn lemma_p_tail_of(v: UclV, rest: Seq<Seq<char>>)
    requires
        wf_conds(v.required),
        v.optional matches Option::Some(l) ==> wf_conds(l),
        v.oracles.len() <= 0xffffffffffffffff,
        v.rules.len() <= 0xffffffffffffffff,
        forall|i: int| 0 <= i < v.rules.len() ==> wf_rule(#[trigger] v.rules[i]),
    ensures
        p_tail(crate::codec::tail_lines(v) + rest) == Option::Some(
            (
                TailV {
                    required: v.required,
                    optional: v.optional,
                    oracles: v.oracles,
                    rules: v.rules,
                },
                rest,
            ),
        ),
{
    let t4 = crate::codec::rules_lines(v.rules) + rest;
    let t3 = seq![field_line("rules: "@, crate::num::dec_of(v.rules.len()))] + t4;
    let t2 = crate::codec::oracles_lines(v.oracles) + t3;
    let t1 = seq![field_line("oracles: "@, crate::num::dec_of(v.oracles.len()))] + t2;
    let t0opt = (match v.optional {
        Option::Some(l) => crate::codec::conds_lines(l),
        Option::None => Seq::<Seq<char>>::empty(),
    }) + t1;
    let onv: Option<nat> = match v.optional {
        Option::Some(l) => Option::Some(l.len()),
        Option::None => Option::None,
    };
    let oni: Option<int> = match v.optional {
        Option::Some(l) => Option::Some(l.len() as int),
        Option::None => Option::None,
    };
    let c3 = seq![field_line("  optional: "@, crate::codec::opt_count_payload(oni))] + t0opt;
    let c2 = crate::codec::conds_lines(v.required) + c3;
    let c1 = seq![field_line("  required: "@, crate::num::dec_of(v.required.len()))] + c2;
    let c0 = seq!["conditions:"@] + c1;
    assert(crate::codec::tail_lines(v) + rest =~= c0);
    lemma_p_exact_of("conditions:"@, c1);
    lemma_p_count_of("  required: "@, v.required.len(), c2);
    lemma_p_conds_of(v.required, c3);
    lemma_p_opt_count_of("  optional: "@, onv, t0opt);
    match v.optional {
        Option::Some(l) => {
            assert(t0opt =~= crate::codec::conds_lines(l) + t1);
            lemma_p_conds_of(l, t1);
        },
        Option::None => {
            assert(t0opt =~= t1);
        },
    }
    lemma_p_count_of("oracles: "@, v.oracles.len(), t2);
    lemma_p_oracles_of(v.oracles, t3);
    lemma_p_count_of("rules: "@, v.rules.len(), t4);
    lemma_p_rules_of(v.rules, rest);
}

/// Parsing the emitted lines of any well-formed contract view recovers the
/// view exactly: the persisted format loses nothing.
#[verifier::rlimit(100)]
pub proof fn lemma_parse_of_emitted(v: UclV)
    requires
        wf_ucl(v),
    ensures
        p_contract(crate::codec::contract_lines(v)) == Option::Some(v),
{
    let e: Seq<Seq<char>> = Seq::<Seq<char>>::empty();
    let s_tail = crate::codec::tail_lines(v) + e;
    let s_pay = crate::codec::pay_lines(v) + s_tail;
    let s_mid = crate::codec::mid_lines(v) + s_pay;
    let s_head = crate::codec::head_lines(v) + s_mid;
    assert(crate::codec::contract_lines(v) =~= s_head);
    lemma_p_head_of(v, s_mid);
    lemma_p_mid_of(v, s_pay);
    lemma_p_pay_of(v, s_tail);
    lemma_p_tail_of(v, e);
    assert(p_contract(s_head) == Option::Some(v));
}

/// Every line of a newline-free line list is newline-free.
pub open spec fn lines_free(ls: Seq<Seq<char>>) -> bool {
    forall|i: int| 0 <= i < ls.len() ==> crate::lines::line_free(#[trigger] ls[i])
}

/// Concatenation preserves newline-freedom.
proof fn lemma_lines_free_add(a: Seq<Seq<char>>, b: Seq<Seq<char>>)
    requires
        lines_free(a),
        lines_free(b),
    ensures
        lines_free(a + b),
{
    assert forall|i: int| 0 <= i < (a + b).len() implies crate::lines::line_free(
        #[trigger] (a + b)[i],
    ) by {
        if i < a.len() {
            assert((a + b)[i] == a[i]);
        } else {
            assert((a + b)[i] == b[i - a.len()]);
        }
    }
}

/// A field line of a newline-free prefix and payload is newline-free.
proof fn lemma_field_line_free(prefix: Seq<char>, payload: Seq<char>)
    requires
        crate::lines::line_free(prefix),
        crate::lines::line_free(payload),
    ensures
        crate::lines::line_free(field_line(prefix, payload)),
{
    assert forall|i: int| 0 <= i < field_line(prefix, payload).len() implies #[trigger] field_line(
        prefix,
        payload,
    )[i] != '\n' by {
        if i < prefix.len() {
            assert(field_line(prefix, payload)[i] == prefix[i]);
        } else {
            assert(field_line(prefix, payload)[i] == payload[i - prefix.len()]);
        }
    }
}

/// A digit sequence is newline-free.
proof fn lemma_dec_seq_line_free(s: Seq<char>)
    requires
        is_dec_seq(s),
    ensures
        crate::lines::line_free(s),
{
    assert forall|i: int| 0 <= i < s.len() implies #[trigger] s[i] != '\n' by {
        assert(crate::num::is_digit(s[i]));
    }
}

/// An amount rendering is newline-free.
proof fn lemma_amount_text_line_free(a: int)
    ensures
        crate::lines::line_free(crate::amount::amount_text(a)),
{
    let u = if a < 0 {
        (-a) as nat
    } else {
        a as nat
    };
    let units = u / 1000000;
    let frac = u % 1000000;
    crate::num::lemma_dec_of_digits(units);
    lemma_dec_seq_line_free(crate::num::dec_of(units));
    let m = crate::amount::mag_text(u);
    assert(crate::lines::line_free(m)) by {
        if frac == 0 {
        } else {
            let ft = crate::amount::frac_text(frac);
            let g = crate::amount::strip10(frac, 6).0;
            crate::num::lemma_dec_of_digits(g);
            assert forall|i: int| 0 <= i < ft.len() implies #[trigger] ft[i] != '\n' by {
                if crate::num::dec_of(g).len() >= crate::amount::strip10(frac, 6).1 {
                    assert(ft[i] == crate::num::dec_of(g)[i]);
                    assert(crate::num::is_digit(ft[i]));
                } else {
                    let nz = crate::amount::strip10(frac, 6).1 - crate::num::dec_of(g).len();
                    if i < nz {
                        assert(ft[i] == '0');
                    } else {
                        assert(ft[i] == crate::num::dec_of(g)[i - nz]);
                        assert(crate::num::is_digit(ft[i]));
                    }
                }
            }
            assert forall|i: int| 0 <= i < m.len() implies #[trigger] m[i] != '\n' by {
                let d = crate::num::dec_of(units);
                if i < d.len() {
                    assert(m[i] == d[i]);
                    assert(crate::num::is_digit(m[i]));
                } else if i == d.len() {
                    assert(m[i] == '.');
                } else {
                    assert(m[i] == ft[i - d.len() - 1]);
                }
            }
        }
    }
    if a < 0 {
        let t = crate::amount::amount_text(a);
        assert forall|i: int| 0 <= i < t.len() implies #[trigger] t[i] != '\n' by {
            if i == 0 {
                assert(t[i] == '-');
            } else {
                assert(t[i] == m[i - 1]);
            }
        }
    }
}

/// An integer rendering is newline-free.
proof fn lemma_int_text_line_free(i: int)
    ensures
        crate::lines::line_free(crate::codec::int_text(i)),
{
    if i < 0 {
        crate::num::lemma_dec_of_digits((-i) as nat);
        lemma_dec_seq_line_free(crate::num::dec_of((-i) as nat));
        let t = crate::codec::int_text(i);
        assert forall|k: int| 0 <= k < t.len() implies #[trigger] t[k] != '\n' by {
            if k == 0 {
                assert(t[k] == '-');
            } else {
                assert(t[k] == crate::num::dec_of((-i) as nat)[k - 1]);
            }
        }
    } else {
        crate::num::lemma_dec_of_digits(i as nat);
        lemma_dec_seq_line_free(crate::num::dec_of(i as nat));
    }
}

/// An optional string payload is newline-free.
proof fn lemma_opt_payload_line_free(o: Option<Seq<char>>)
    ensures
        crate::lines::line_free(crate::codec::opt_payload(o)),
{
    match o {
        Option::Some(v) => {
            crate::text::lemma_escape_marker_free(v);
            crate::lines::lemma_marker_free_line_free(crate::text::escape_text(v));
        },
        Option::None => {
            assert(crate::codec::opt_payload(o) =~= seq!['~']);
        },
    }
}

/// An optional amount payload is newline-free.
proof fn lemma_opt_amount_payload_line_free(o: Option<int>)
    ensures
        crate::lines::line_free(crate::codec::opt_amount_payload(o)),
{
    match o {
        Option::Some(a) => {
            lemma_amount_text_line_free(a);
        },
        Option::None => {
            assert(crate::codec::opt_amount_payload(o) =~= seq!['~']);
        },
    }
}

/// A boolean payload is newline-free.
proof fn lemma_bool_text_line_free(b: bool)
    ensures
        crate::lines::line_free(crate::codec::bool_text(b)),
{
    reveal_strlit("true");
    reveal_strlit("false");
}

/// An escaped scalar line with a newline-free prefix is newline-free.
proof fn lemma_scalar_line_free(prefix: Seq<char>, v: Seq<char>)
    requires
        crate::lines::line_free(prefix),
    ensures
        crate::lines::line_free(field_line(prefix, crate::text::escape_text(v))),
{
    crate::text::lemma_escape_marker_free(v);
    crate::lines::lemma_marker_free_line_free(crate::text::escape_text(v));
    lemma_field_line_free(prefix, crate::text::escape_text(v));
}

/// A count line with a newline-free prefix is newline-free.
proof fn lemma_count_line_free(prefix: Seq<char>, n: nat)
    requires
        crate::lines::line_free(prefix),
    ensures
        crate::lines::line_free(field_line(prefix, crate::num::dec_of(n))),
{
    crate::num::lemma_dec_of_digits(n);
    lemma_dec_seq_line_free(crate::num::dec_of(n));
    lemma_field_line_free(prefix, crate::num::dec_of(n));
}

/// The emitted lines of a party list are newline-free.
proof fn lemma_parties_lines_free(ps: Seq<PartyV>)
    ensures
        lines_free(crate::codec::parties_lines(ps)),
    decreases ps.len(),
{
    reveal_strlit("- role: ");
    reveal_strlit("  identifier: ");
    reveal_strlit("  name: ");
    if ps.len() == 0 {
    } else {
        let p = ps[0];
        lemma_scalar_line_free("- role: "@, p.role);
        lemma_scalar_line_free("  identifier: "@, p.identifier);
        lemma_opt_payload_line_free(p.name);
        lemma_field_line_free("  name: "@, crate::codec::opt_payload(p.name));
        lemma_parties_lines_free(ps.subrange(1, ps.len() as int));
        lemma_lines_free_add(
            crate::codec::party_lines(p),
            crate::codec::parties_lines(ps.subrange(1, ps.len() as int)),
        );
    }
}

/// The emitted lines of a string item list are newline-free.
proof fn lemma_item_lines_free(items: Seq<Seq<char>>)
    ensures
        lines_free(crate::codec::item_lines(items)),
    decreases items.len(),
{
    reveal_strlit("  - ");
    if items.len() == 0 {
    } else {
        lemma_scalar_line_free("  - "@, items[0]);
        lemma_item_lines_free(items.subrange(1, items.len() as int));
        lemma_lines_free_add(
            seq![field_line("  - "@, crate::text::escape_text(items[0]))],
            crate::codec::item_lines(items.subrange(1, items.len() as int)),
        );
    }
}

/// The emitted lines of a metadata entry list are newline-free.
proof fn lemma_meta_entries_lines_free(es: Seq<MetaEntryV>)
    ensures
        lines_free(crate::codec::meta_entries_lines(es)),
    decreases es.len(),
{
    reveal_strlit("- key: ");
    reveal_strlit("  text: ");
    reveal_strlit("  int: ");
    reveal_strlit("  dec: ");
    reveal_strlit("  flag: ");
    reveal_strlit("  items: ");
    if es.len() == 0 {
    } else {
        let e = es[0];
        lemma_scalar_line_free("- key: "@, e.key);
        assert(lines_free(crate::codec::meta_val_lines(e.value))) by {
            match e.value {
                MetaValV::Text(s) => {
                    lemma_scalar_line_free("  text: "@, s);
                },
                MetaValV::Integer(i) => {
                    lemma_int_text_line_free(i);
                    lemma_field_line_free("  int: "@, crate::codec::int_text(i));
                },
                MetaValV::Decimal(a) => {
                    lemma_amount_text_line_free(a);
                    lemma_field_line_free("  dec: "@, crate::amount::amount_text(a));
                },
                MetaValV::Flag(b) => {
                    lemma_bool_text_line_free(b);
                    lemma_field_line_free("  flag: "@, crate::codec::bool_text(b));
                },
                MetaValV::TextList(l) => {
                    lemma_count_line_free("  items: "@, l.len());
                    lemma_item_lines_free(l);
                    lemma_lines_free_add(
                        seq![field_line("  items: "@, crate::num::dec_of(l.len()))],
                        crate::codec::item_lines(l),
                    );
                },
            }
        }
        lemma_lines_free_add(
            seq![field_line("- key: "@, crate::text::escape_text(e.key))],
            crate::codec::meta_val_lines(e.value),
        );
        lemma_meta_entries_lines_free(es.subrange(1, es.len() as int));
        lemma_lines_free_add(
            crate::codec::meta_entry_lines(e),
            crate::codec::meta_entries_lines(es.subrange(1, es.len() as int)),
        );
    }
}

/// The emitted lines of a condition list are newline-free.
proof fn lemma_conds_lines_free(cs: Seq<CondV>)
    ensures
        lines_free(crate::codec::conds_lines(cs)),
    decreases cs.len(),
{
    reveal_strlit("- id: ");
    reveal_strlit("  description: ");
    reveal_strlit("  source: ");
    reveal_strlit("  operator: ");
    reveal_strlit("  threshold: ");
    if cs.len() == 0 {
    } else {
        let c = cs[0];
        lemma_scalar_line_free("- id: "@, c.id);
        lemma_scalar_line_free("  description: "@, c.description);
        lemma_scalar_line_free("  source: "@, c.source);
        lemma_scalar_line_free("  operator: "@, c.operator);
        lemma_opt_amount_payload_line_free(c.threshold);
        lemma_field_line_free("  threshold: "@, crate::codec::opt_amount_payload(c.threshold));
        lemma_conds_lines_free(cs.subrange(1, cs.len() as int));
        lemma_lines_free_add(
            crate::codec::cond_lines(c),
            crate::codec::conds_lines(cs.subrange(1, cs.len() as int)),
        );
    }
}

/// The emitted lines of an oracle list are newline-free.
proof fn lemma_oracles_lines_free(os: Seq<OracleV>)
    ensures
        lines_free(crate::codec::oracles_lines(os)),
    decreases os.len(),
{
    reveal_strlit("- id: ");
    reveal_strlit("  type: ");
    reveal_strlit("  endpoint: ");
    reveal_strlit("  refresh_rate: ");
    reveal_strlit("  required: ");
    if os.len() == 0 {
    } else {
        let o = os[0];
        lemma_scalar_line_free("- id: "@, o.id);
        lemma_scalar_line_free("  type: "@, o.oracle_type);
        lemma_opt_payload_line_free(o.endpoint);
        lemma_field_line_free("  endpoint: "@, crate::codec::opt_payload(o.endpoint));
        lemma_scalar_line_free("  refresh_rate: "@, o.refresh_rate);
        lemma_bool_text_line_free(o.required);
        lemma_field_line_free("  required: "@, crate::codec::bool_text(o.required));
        lemma_oracles_lines_free(os.subrange(1, os.len() as int));
        lemma_lines_free_add(
            crate::codec::oracle_lines(o),
            crate::codec::oracles_lines(os.subrange(1, os.len() as int)),
        );
    }
}

/// The emitted lines of an optional string list are newline-free.
proof fn lemma_opt_items_lines_free(prefix: Seq<char>, o: Option<Seq<Seq<char>>>)
    requires
        crate::lines::line_free(prefix),
    ensures
        lines_free(crate::codec::opt_items_lines(prefix, o)),
{
    match o {
        Option::Some(l) => {
            lemma_count_line_free(prefix, l.len());
            lemma_item_lines_free(l);
            lemma_lines_free_add(
                seq![field_line(prefix, crate::num::dec_of(l.len()))],
                crate::codec::item_lines(l),
            );
        },
        Option::None => {
            assert(crate::lines::line_free(seq!['~']));
            lemma_field_line_free(prefix, seq!['~']);
        },
    }
}

/// The emitted lines of an action list are newline-free.
proof fn lemma_actions_lines_free(az: Seq<ActionV>)
    ensures
        lines_free(crate::codec::actions_lines(az)),
    decreases az.len(),
{
    reveal_strlit("- action: ");
    reveal_strlit("  params: ");
    if az.len() == 0 {
    } else {
        let a = az[0];
        lemma_scalar_line_free("- action: "@, a.action);
        lemma_count_line_free("  params: "@, a.params.len());
        lemma_meta_entries_lines_free(a.params);
        lemma_lines_free_add(
            seq![
                field_line("- action: "@, crate::text::escape_text(a.action)),
                field_line("  params: "@, crate::num::dec_of(a.params.len())),
            ],
            crate::codec::meta_entries_lines(a.params),
        );
        assert(lines_free(crate::codec::action_lines(a)));
        lemma_actions_lines_free(az.subrange(1, az.len() as int));
        lemma_lines_free_add(
            crate::codec::action_lines(a),
            crate::codec::actions_lines(az.subrange(1, az.len() as int)),
        );
    }
}

/// The emitted lines of a rule list are newline-free.
proof fn lemma_rules_lines_free(rs: Seq<RuleV>)
    ensures
        lines_free(crate::codec::rules_lines(rs)),
    decreases rs.len(),
{
    reveal_strlit("- rule_id: ");
    reveal_strlit("  name: ");
    reveal_strlit("  trigger: ");
    reveal_strlit("  all_of: ");
    reveal_strlit("  any_of: ");
    reveal_strlit("  actions: ");
    if rs.len() == 0 {
    } else {
        let r = rs[0];
        lemma_scalar_line_free("- rule_id: "@, r.rule_id);
        lemma_scalar_line_free("  name: "@, r.name);
        lemma_scalar_line_free("  trigger: "@, r.trigger);
        lemma_opt_items_lines_free("  all_of: "@, r.all_of);
        lemma_opt_items_lines_free("  any_of: "@, r.any_of);
        lemma_count_line_free("  actions: "@, r.actions.len());
        lemma_actions_lines_free(r.actions);
        let head3 = seq![
            field_line("- rule_id: "@, crate::text::escape_text(r.rule_id)),
            field_line("  name: "@, crate::text::escape_text(r.name)),
            field_line("  trigger: "@, crate::text::escape_text(r.trigger)),
        ];
        lemma_lines_free_add(head3, crate::codec::opt_items_lines("  all_of: "@, r.all_of));
        lemma_lines_free_add(
            head3 + crate::codec::opt_items_lines("  all_of: "@, r.all_of),
            crate::codec::opt_items_lines("  any_of: "@, r.any_of),
        );
        lemma_lines_free_add(
            head3 + crate::codec::opt_items_lines("  all_of: "@, r.all_of)
                + crate::codec::opt_items_lines("  any_of: "@, r.any_of),
            seq![field_line("  actions: "@, crate::num::dec_of(r.actions.len()))],
        );
        lemma_lines_free_add(
            head3 + crate::codec::opt_items_lines("  all_of: "@, r.all_of)
                + crate::codec::opt_items_lines("  any_of: "@, r.any_of) + seq![
                field_line("  actions: "@, crate::num::dec_of(r.actions.len())),
            ],
            crate::codec::actions_lines(r.actions),
        );
        assert(lines_free(crate::codec::rule_lines(r)));
        lemma_rules_lines_free(rs.subrange(1, rs.len() as int));
        lemma_lines_free_add(
            crate::codec::rule_lines(r),
            crate::codec::rules_lines(rs.subrange(1, rs.len() as int)),
        );
    }
}

/// Every emitted line of a contract is newline-free.
#[verifier::rlimit(100)]
pub proof fn lemma_contract_lines_free(v: UclV)
    ensures
        lines_free(crate::codec::contract_lines(v)),
{
    reveal_strlit("contract_id: ");
    reveal_strlit("version: ");
    reveal_strlit("standard: ");
    reveal_strlit("summary:");
    reveal_strlit("  title: ");
    reveal_strlit("  plain_english: ");
    reveal_strlit("  what_it_does: ");
    reveal_strlit("  who_its_for: ");
    reveal_strlit("  when_it_executes: ");
    reveal_strlit("metadata:");
    reveal_strlit("  type: ");
    reveal_strlit("  category: ");
    reveal_strlit("  parties: ");
    reveal_strlit("  effective: ");
    reveal_strlit("  duration: ");
    reveal_strlit("  renewal: ");
    reveal_strlit("  extra: ");
    reveal_strlit("payment:");
    reveal_strlit("  structure: ");
    reveal_strlit("  amount: ");
    reveal_strlit("  currency: ");
    reveal_strlit("  token: ");
    reveal_strlit("  blockchain: ");
    reveal_strlit("  frequency: ");
    reveal_strlit("conditions:");
    reveal_strlit("  required: ");
    reveal_strlit("  optional: ");
    reveal_strlit("oracles: ");
    reveal_strlit("rules: ");
    lemma_scalar_line_free("contract_id: "@, v.contract_id);
    lemma_scalar_line_free("version: "@, v.version);
    lemma_scalar_line_free("standard: "@, v.standard);
    lemma_scalar_line_free("  title: "@, v.title);
    lemma_scalar_line_free("  plain_english: "@, v.plain_english);
    lemma_scalar_line_free("  what_it_does: "@, v.what_it_does);
    lemma_scalar_line_free("  who_its_for: "@, v.who_its_for);
    lemma_scalar_line_free("  when_it_executes: "@, v.when_it_executes);
    lemma_scalar_line_free("  type: "@, v.contract_type);
    lemma_scalar_line_free("  category: "@, v.category);
    assert(lines_free(crate::codec::head_lines(v)));
    lemma_count_line_free("  parties: "@, v.parties.len());
    lemma_parties_lines_free(v.parties);
    lemma_scalar_line_free("  effective: "@, v.effective);
    lemma_scalar_line_free("  duration: "@, v.duration);
    lemma_scalar_line_free("  renewal: "@, v.renewal);
    lemma_count_line_free("  extra: "@, v.extra.len());
    lemma_meta_entries_lines_free(v.extra);
    assert(lines_free(crate::codec::mid_lines(v))) by {
        lemma_lines_free_add(
            seq![field_line("  parties: "@, crate::num::dec_of(v.parties.len()))],
            crate::codec::parties_lines(v.parties),
        );
        lemma_lines_free_add(
            seq![field_line("  parties: "@, crate::num::dec_of(v.parties.len()))]
                + crate::codec::parties_lines(v.parties),
            seq![
                field_line("  effective: "@, crate::text::escape_text(v.effective)),
                field_line("  duration: "@, crate::text::escape_text(v.duration)),
                field_line("  renewal: "@, crate::text::escape_text(v.renewal)),
                field_line("  extra: "@, crate::num::dec_of(v.extra.len())),
            ],
        );
        lemma_lines_free_add(
            seq![field_line("  parties: "@, crate::num::dec_of(v.parties.len()))]
                + crate::codec::parties_lines(v.parties) + seq![
                field_line("  effective: "@, crate::text::escape_text(v.effective)),
                field_line("  duration: "@, crate::text::escape_text(v.duration)),
                field_line("  renewal: "@, crate::text::escape_text(v.renewal)),
                field_line("  extra: "@, crate::num::dec_of(v.extra.len())),
            ],
            crate::codec::meta_entries_lines(v.extra),
        );
    }
    lemma_scalar_line_free("  structure: "@, v.structure);
    lemma_amount_text_line_free(v.amount);
    lemma_field_line_free("  amount: "@, crate::amount::amount_text(v.amount));
    lemma_scalar_line_free("  currency: "@, v.currency);
    lemma_scalar_line_free("  token: "@, v.token);
    lemma_scalar_line_free("  blockchain: "@, v.blockchain);
    lemma_scalar_line_free("  frequency: "@, v.frequency);
    assert(lines_free(crate::codec::pay_lines(v)));
    let oni: Option<int> = match v.optional {
        Option::Some(l) => Option::Some(l.len() as int),
        Option::None => Option::None,
    };
    lemma_count_line_free("  required: "@, v.required.len());
    lemma_conds_lines_free(v.required);
    assert(crate::lines::line_free(crate::codec::opt_count_payload(oni))) by {
        match v.optional {
            Option::Some(l) => {
                crate::num::lemma_dec_of_digits(l.len());
                lemma_dec_seq_line_free(crate::num::dec_of(l.len()));
            },
            Option::None => {
                assert(crate::codec::opt_count_payload(oni) =~= seq!['~']);
            },
        }
    }
    lemma_field_line_free("  optional: "@, crate::codec::opt_count_payload(oni));
    match v.optional {
        Option::Some(l) => {
            lemma_conds_lines_free(l);
        },
        Option::None => {},
    }
    lemma_count_line_free("oracles: "@, v.oracles.len());
    lemma_oracles_lines_free(v.oracles);
    lemma_count_line_free("rules: "@, v.rules.len());
    lemma_rules_lines_free(v.rules);
    assert(lines_free(crate::codec::tail_lines(v))) by {
        let a1 = seq![
            "conditions:"@,
            field_line("  required: "@, crate::num::dec_of(v.required.len())),
        ];
        let a2 = a1 + crate::codec::conds_lines(v.required);
        let a3 = a2 + seq![field_line("  optional: "@, crate::codec::opt_count_payload(oni))];
        let a4 = a3 + (match v.optional {
            Option::Some(l) => crate::codec::conds_lines(l),
            Option::None => Seq::<Seq<char>>::empty(),
        });
        let a5 = a4 + seq![field_line("oracles: "@, crate::num::dec_of(v.oracles.len()))];
        let a6 = a5 + crate::codec::oracles_lines(v.oracles);
        let a7 = a6 + seq![field_line("rules: "@, crate::num::dec_of(v.rules.len()))];
        lemma_lines_free_add(a1, crate::codec::conds_lines(v.required));
        lemma_lines_free_add(
            a2,
            seq![field_line("  optional: "@, crate::codec::opt_count_payload(oni))],
        );
        assert(lines_free(
            match v.optional {
                Option::Some(l) => crate::codec::conds_lines(l),
                Option::None => Seq::<Seq<char>>::empty(),
            },
        ));
        lemma_lines_free_add(
            a3,
            match v.optional {
                Option::Some(l) => crate::codec::conds_lines(l),
                Option::None => Seq::<Seq<char>>::empty(),
            },
        );
        lemma_lines_free_add(
            a4,
            seq![field_line("oracles: "@, crate::num::dec_of(v.oracles.len()))],
        );
        lemma_lines_free_add(a5, crate::codec::oracles_lines(v.oracles));
        lemma_lines_free_add(
            a6,
            seq![field_line("rules: "@, crate::num::dec_of(v.rules.len()))],
        );
        lemma_lines_free_add(a7, crate::codec::rules_lines(v.rules));
    }
    lemma_lines_free_add(crate::codec::head_lines(v), crate::codec::mid_lines(v));
    lemma_lines_free_add(
        crate::codec::head_lines(v) + crate::codec::mid_lines(v),
        crate::codec::pay_lines(v),
    );
    lemma_lines_free_add(
        crate::codec::head_lines(v) + crate::codec::mid_lines(v) + crate::codec::pay_lines(v),
        crate::codec::tail_lines(v),
    );
}

/// What loading a persisted text must yield.
pub open spec fn parse_contract_text(text: Seq<char>) -> Option<UclV> {
    p_contract(crate::lines::split_lines_text(text))
}

/// The save/load round trip: parsing the persisted text of any well-formed
/// contract recovers the contract, field for field. The well-formedness
/// bounds hold of every contract a program holds in memory.
pub proof fn lemma_load_of_saved(c: UCLContract)
    requires
        wf_ucl(ucl_view(c)),
    ensures
        parse_contract_text(crate::codec::yaml_text(c)) == Option::Some(ucl_view(c)),
{
    let v = ucl_view(c);
    lemma_contract_lines_free(v);
    crate::lines::lemma_split_of_text(crate::codec::contract_lines(v));
    lemma_parse_of_emitted(v);
}

/// Parse the persisted text of a contract.
pub fn contract_from_text(text: &str) -> (r: Result<UCLContract, Error>)
    ensures
        match r {
            Result::Ok(c) => parse_contract_text(text@) == Option::Some(ucl_view(c)),
            Result::Err(e) => parse_contract_text(text@) is None && (e matches
                Error::SerializationError(m) && m@ == "could not parse contract file"@),
        },
{
    let lines = crate::lines::split_lines(text);
    match parse_contract_lines(&lines) {
        Some(c) => Ok(c),
        None => Err(Error::SerializationError(String::from_str("could not parse contract file"))),
    }
}

} // verus!
