//! The persisted contract format.
//!
//! A contract is written as a fixed sequence of `prefix: payload` lines;
//! string payloads are escaped, list payloads are preceded by a count line.
//! Parsing is specified against the same line grammar, and
//! `lemma_parse_of_emitted` proves that loading a saved contract recovers
//! every field.

use vstd::prelude::*;
use crate::amount::{Amount, amount_text};
use crate::error::Error;
use crate::lines::{join_lines, seq_views, text_of_lines};
use crate::model::{
    ActionDefinition, ConditionDefinition, MetaEntry, MetaValue, OracleDefinition, PartyInfo,
    RuleDefinition, UCLContract,
};
use crate::num::{dec_of, u64_to_dec};
use crate::text::{escape_text, push_escaped, str_eq};

verus! {

// ------------------------------------------------------------------
// Ghost views of the schema
// ------------------------------------------------------------------
/// The view of a party.
pub ghost struct PartyV {
    pub role: Seq<char>,
    pub identifier: Seq<char>,
    pub name: Option<Seq<char>>,
}

/// The view of a metadata value.
pub ghost enum MetaValV {
    Text(Seq<char>),
    Integer(int),
    Decimal(int),
    Flag(bool),
    TextList(Seq<Seq<char>>),
}

/// The view of a metadata entry.
pub ghost struct MetaEntryV {
    pub key: Seq<char>,
    pub value: MetaValV,
}

/// The view of a condition.
pub ghost struct CondV {
    pub id: Seq<char>,
    pub description: Seq<char>,
    pub source: Seq<char>,
    pub operator: Seq<char>,
    pub threshold: Option<int>,
}

/// The view of an oracle.
pub ghost struct OracleV {
    pub id: Seq<char>,
    pub oracle_type: Seq<char>,
    pub endpoint: Option<Seq<char>>,
    pub refresh_rate: Seq<char>,
    pub required: bool,
}

/// The view of an action.
pub ghost struct ActionV {
    pub action: Seq<char>,
    pub params: Seq<MetaEntryV>,
}

/// The view of a rule.
pub ghost struct RuleV {
    pub rule_id: Seq<char>,
    pub name: Seq<char>,
    pub trigger: Seq<char>,
    pub all_of: Option<Seq<Seq<char>>>,
    pub any_of: Option<Seq<Seq<char>>>,
    pub actions: Seq<ActionV>,
}

/// The view of a whole contract.
pub ghost struct UclV {
    pub contract_id: Seq<char>,
    pub version: Seq<char>,
    pub standard: Seq<char>,
    pub title: Seq<char>,
    pub plain_english: Seq<char>,
    pub what_it_does: Seq<char>,
    pub who_its_for: Seq<char>,
    pub when_it_executes: Seq<char>,
    pub contract_type: Seq<char>,
    pub category: Seq<char>,
    pub parties: Seq<PartyV>,
    pub effective: Seq<char>,
    pub duration: Seq<char>,
    pub renewal: Seq<char>,
    pub extra: Seq<MetaEntryV>,
    pub structure: Seq<char>,
    pub amount: int,
    pub currency: Seq<char>,
    pub token: Seq<char>,
    pub blockchain: Seq<char>,
    pub frequency: Seq<char>,
    pub required: Seq<CondV>,
    pub optional: Option<Seq<CondV>>,
    pub oracles: Seq<OracleV>,
    pub rules: Seq<RuleV>,
}

/// The view of an optional string.
pub open spec fn opt_view(o: Option<String>) -> Option<Seq<char>> {
    match o {
        Option::Some(s) => Option::Some(s@),
        Option::None => Option::None,
    }
}

/// The view of an exec party.
pub open spec fn party_view(p: PartyInfo) -> PartyV {
    PartyV { role: p.role@, identifier: p.identifier@, name: opt_view(p.name) }
}

/// The view of an exec metadata value.
pub open spec fn meta_val_view(v: MetaValue) -> MetaValV {
    match v {
        MetaValue::Text(s) => MetaValV::Text(s@),
        MetaValue::Integer(i) => MetaValV::Integer(i as int),
        MetaValue::Decimal(a) => MetaValV::Decimal(a@),
        MetaValue::Flag(b) => MetaValV::Flag(b),
        MetaValue::TextList(l) => MetaValV::TextList(Seq::new(l@.len(), |i: int| l@[i]@)),
    }
}

/// The view of an exec metadata entry.
pub open spec fn meta_entry_view(e: MetaEntry) -> MetaEntryV {
    MetaEntryV { key: e.key@, value: meta_val_view(e.value) }
}

/// The view of an exec condition.
pub open spec fn cond_view(c: ConditionDefinition) -> CondV {
    CondV {
        id: c.id@,
        description: c.description@,
        source: c.source@,
        operator: c.operator@,
        threshold: match c.threshold {
            Option::Some(a) => Option::Some(a@),
            Option::None => Option::None,
        },
    }
}

/// The view of an exec oracle.
pub open spec fn oracle_view(o: OracleDefinition) -> OracleV {
    OracleV {
        id: o.id@,
        oracle_type: o.oracle_type@,
        endpoint: opt_view(o.endpoint),
        refresh_rate: o.refresh_rate@,
        required: o.required,
    }
}

/// The view of an exec action.
pub open spec fn action_view(a: ActionDefinition) -> ActionV {
    ActionV {
        action: a.action@,
        params: Seq::new(a.params@.len(), |i: int| meta_entry_view(a.params@[i])),
    }
}

/// The view of an exec rule.
pub open spec fn rule_view(r: RuleDefinition) -> RuleV {
    RuleV {
        rule_id: r.rule_id@,
        name: r.name@,
        trigger: r.trigger@,
        all_of: match r.conditions.all_of {
            Option::Some(l) => Option::Some(Seq::new(l@.len(), |i: int| l@[i]@)),
            Option::None => Option::None,
        },
        any_of: match r.conditions.any_of {
            Option::Some(l) => Option::Some(Seq::new(l@.len(), |i: int| l@[i]@)),
            Option::None => Option::None,
        },
        actions: Seq::new(r.actions@.len(), |i: int| action_view(r.actions@[i])),
    }
}

/// The view of an exec contract.
pub open spec fn ucl_view(c: UCLContract) -> UclV {
    UclV {
        contract_id: c.contract_id@,
        version: c.version@,
        standard: c.standard@,
        title: c.summary.title@,
        plain_english: c.summary.plain_english@,
        what_it_does: c.summary.what_it_does@,
        who_its_for: c.summary.who_its_for@,
        when_it_executes: c.summary.when_it_executes@,
        contract_type: c.metadata.contract_type@,
        category: c.metadata.category@,
        parties: Seq::new(c.metadata.parties@.len(), |i: int| party_view(c.metadata.parties@[i])),
        effective: c.metadata.dates.effective@,
        duration: c.metadata.dates.duration@,
        renewal: c.metadata.dates.renewal@,
        extra: Seq::new(c.metadata.extra@.len(), |i: int| meta_entry_view(c.metadata.extra@[i])),
        structure: c.payment.structure@,
        amount: c.payment.amount@,
        currency: c.payment.currency@,
        token: c.payment.token@,
        blockchain: c.payment.blockchain@,
        frequency: c.payment.frequency@,
        required: Seq::new(
            c.conditions.required@.len(),
            |i: int| cond_view(c.conditions.required@[i]),
        ),
        optional: match c.conditions.optional {
            Option::Some(l) => Option::Some(Seq::new(l@.len(), |i: int| cond_view(l@[i]))),
            Option::None => Option::None,
        },
        oracles: Seq::new(c.oracles@.len(), |i: int| oracle_view(c.oracles@[i])),
        rules: Seq::new(c.rules@.len(), |i: int| rule_view(c.rules@[i])),
    }
}

// ------------------------------------------------------------------
// Line primitives
// ------------------------------------------------------------------
/// A line: a fixed prefix followed by a payload.
pub open spec fn field_line(prefix: Seq<char>, payload: Seq<char>) -> Seq<char> {
    prefix + payload
}

/// Whether a line starts with the given prefix.
pub open spec fn has_prefix(line: Seq<char>, prefix: Seq<char>) -> bool {
    line.len() >= prefix.len() && line.take(prefix.len() as int) == prefix
}

/// The payload after a prefix.
pub open spec fn payload_of(line: Seq<char>, prefix: Seq<char>) -> Seq<char> {
    line.skip(prefix.len() as int)
}

/// The payload of an optional string: a tilde for none, the escaped text
/// otherwise. Escaped text never renders as a bare tilde.
pub open spec fn opt_payload(o: Option<Seq<char>>) -> Seq<char> {
    match o {
        Option::Some(v) => escape_text(v),
        Option::None => seq!['~'],
    }
}

/// The payload of an optional amount.
pub open spec fn opt_amount_payload(o: Option<int>) -> Seq<char> {
    match o {
        Option::Some(a) => amount_text(a),
        Option::None => seq!['~'],
    }
}

/// The payload of a signed integer.
pub open spec fn int_text(i: int) -> Seq<char> {
    if i < 0 {
        seq!['-'] + dec_of((-i) as nat)
    } else {
        dec_of(i as nat)
    }
}

/// The payload of a boolean.
pub open spec fn bool_text(b: bool) -> Seq<char> {
    if b {
        "true"@
    } else {
        "false"@
    }
}

/// The count line introducing a list, or carrying an optional list's absence.
pub open spec fn opt_count_payload(o: Option<int>) -> Seq<char> {
    match o {
        Option::Some(n) => dec_of(n as nat),
        Option::None => seq!['~'],
    }
}

// ------------------------------------------------------------------
// The emitted line sequences
// ------------------------------------------------------------------
/// The three lines of one party.
pub open spec fn party_lines(p: PartyV) -> Seq<Seq<char>> {
    seq![
        field_line("- role: "@, escape_text(p.role)),
        field_line("  identifier: "@, escape_text(p.identifier)),
        field_line("  name: "@, opt_payload(p.name)),
    ]
}

/// The lines of a party list.
pub open spec fn parties_lines(ps: Seq<PartyV>) -> Seq<Seq<char>>
    decreases ps.len(),
{
    if ps.len() == 0 {
        Seq::<Seq<char>>::empty()
    } else {
        party_lines(ps[0]) + parties_lines(ps.subrange(1, ps.len() as int))
    }
}

/// The lines of a string-list item.
pub open spec fn item_lines(items: Seq<Seq<char>>) -> Seq<Seq<char>>
    decreases items.len(),
{
    if items.len() == 0 {
        Seq::<Seq<char>>::empty()
    } else {
        seq![field_line("  - "@, escape_text(items[0]))] + item_lines(
            items.subrange(1, items.len() as int),
        )
    }
}

/// The lines of one metadata value.
pub open spec fn meta_val_lines(v: MetaValV) -> Seq<Seq<char>> {
    match v {
        MetaValV::Text(s) => seq![field_line("  text: "@, escape_text(s))],
        MetaValV::Integer(i) => seq![field_line("  int: "@, int_text(i))],
        MetaValV::Decimal(a) => seq![field_line("  dec: "@, amount_text(a))],
        MetaValV::Flag(b) => seq![field_line("  flag: "@, bool_text(b))],
        MetaValV::TextList(l) => seq![field_line("  items: "@, dec_of(l.len()))] + item_lines(l),
    }
}

/// The lines of one metadata entry.
pub open spec fn meta_entry_lines(e: MetaEntryV) -> Seq<Seq<char>> {
    seq![field_line("- key: "@, escape_text(e.key))] + meta_val_lines(e.value)
}

/// The lines of a metadata entry list.
pub open spec fn meta_entries_lines(es: Seq<MetaEntryV>) -> Seq<Seq<char>>
    decreases es.len(),
{
    if es.len() == 0 {
        Seq::<Seq<char>>::empty()
    } else {
        meta_entry_lines(es[0]) + meta_entries_lines(es.subrange(1, es.len() as int))
    }
}

/// The five lines of one condition.
pub open spec fn cond_lines(c: CondV) -> Seq<Seq<char>> {
    seq![
        field_line("- id: "@, escape_text(c.id)),
        field_line("  description: "@, escape_text(c.description)),
        field_line("  source: "@, escape_text(c.source)),
        field_line("  operator: "@, escape_text(c.operator)),
        field_line("  threshold: "@, opt_amount_payload(c.threshold)),
    ]
}

/// The lines of a condition list.
pub open spec fn conds_lines(cs: Seq<CondV>) -> Seq<Seq<char>>
    decreases cs.len(),
{
    if cs.len() == 0 {
        Seq::<Seq<char>>::empty()
    } else {
        cond_lines(cs[0]) + conds_lines(cs.subrange(1, cs.len() as int))
    }
}

/// The five lines of one oracle.
pub open spec fn oracle_lines(o: OracleV) -> Seq<Seq<char>> {
    seq![
        field_line("- id: "@, escape_text(o.id)),
        field_line("  type: "@, escape_text(o.oracle_type)),
        field_line("  endpoint: "@, opt_payload(o.endpoint)),
        field_line("  refresh_rate: "@, escape_text(o.refresh_rate)),
        field_line("  required: "@, bool_text(o.required)),
    ]
}

/// The lines of an oracle list.
pub open spec fn oracles_lines(os: Seq<OracleV>) -> Seq<Seq<char>>
    decreases os.len(),
{
    if os.len() == 0 {
        Seq::<Seq<char>>::empty()
    } else {
        oracle_lines(os[0]) + oracles_lines(os.subrange(1, os.len() as int))
    }
}

/// The lines of one action: its name, then its parameter entries.
pub open spec fn action_lines(a: ActionV) -> Seq<Seq<char>> {
    seq![
        field_line("- action: "@, escape_text(a.action)),
        field_line("  params: "@, dec_of(a.params.len())),
    ] + meta_entries_lines(a.params)
}

/// The lines of an action list.
pub open spec fn actions_lines(az: Seq<ActionV>) -> Seq<Seq<char>>
    decreases az.len(),
{
    if az.len() == 0 {
        Seq::<Seq<char>>::empty()
    } else {
        action_lines(az[0]) + actions_lines(az.subrange(1, az.len() as int))
    }
}

/// The lines of an optional string list: a count or a tilde, then the items.
pub open spec fn opt_items_lines(prefix: Seq<char>, o: Option<Seq<Seq<char>>>) -> Seq<Seq<char>> {
    match o {
        Option::Some(l) => seq![field_line(prefix, dec_of(l.len()))] + item_lines(l),
        Option::None => seq![field_line(prefix, seq!['~'])],
    }
}

/// The lines of one rule.
pub open spec fn rule_lines(r: RuleV) -> Seq<Seq<char>> {
    seq![
        field_line("- rule_id: "@, escape_text(r.rule_id)),
        field_line("  name: "@, escape_text(r.name)),
        field_line("  trigger: "@, escape_text(r.trigger)),
    ] + opt_items_lines("  all_of: "@, r.all_of) + opt_items_lines("  any_of: "@, r.any_of)
        + seq![field_line("  actions: "@, dec_of(r.actions.len()))] + actions_lines(r.actions)
}

/// The lines of a rule list.
pub open spec fn rules_lines(rs: Seq<RuleV>) -> Seq<Seq<char>>
    decreases rs.len(),
{
    if rs.len() == 0 {
        Seq::<Seq<char>>::empty()
    } else {
        rule_lines(rs[0]) + rules_lines(rs.subrange(1, rs.len() as int))
    }
}

/// The head lines of a persisted contract: identity, summary, and the named
/// metadata fields.
pub open spec fn head_lines(v: UclV) -> Seq<Seq<char>> {
    seq![
        field_line("contract_id: "@, escape_text(v.contract_id)),
        field_line("version: "@, escape_text(v.version)),
        field_line("standard: "@, escape_text(v.standard)),
        "summary:"@,
        field_line("  title: "@, escape_text(v.title)),
        field_line("  plain_english: "@, escape_text(v.plain_english)),
        field_line("  what_it_does: "@, escape_text(v.what_it_does)),
        field_line("  who_its_for: "@, escape_text(v.who_its_for)),
        field_line("  when_it_executes: "@, escape_text(v.when_it_executes)),
        "metadata:"@,
        field_line("  type: "@, escape_text(v.contract_type)),
        field_line("  category: "@, escape_text(v.category)),
    ]
}

/// The middle lines of a persisted contract: parties, dates, extras.
pub open spec fn mid_lines(v: UclV) -> Seq<Seq<char>> {
    seq![field_line("  parties: "@, dec_of(v.parties.len()))] + parties_lines(v.parties) + seq![
        field_line("  effective: "@, escape_text(v.effective)),
        field_line("  duration: "@, escape_text(v.duration)),
        field_line("  renewal: "@, escape_text(v.renewal)),
        field_line("  extra: "@, dec_of(v.extra.len())),
    ] + meta_entries_lines(v.extra)
}

/// The payment lines of a persisted contract.
pub open spec fn pay_lines(v: UclV) -> Seq<Seq<char>> {
    seq![
        "payment:"@,
        field_line("  structure: "@, escape_text(v.structure)),
        field_line("  amount: "@, amount_text(v.amount)),
        field_line("  currency: "@, escape_text(v.currency)),
        field_line("  token: "@, escape_text(v.token)),
        field_line("  blockchain: "@, escape_text(v.blockchain)),
        field_line("  frequency: "@, escape_text(v.frequency)),
    ]
}

/// The tail lines of a persisted contract: conditions, oracles, rules.
pub open spec fn tail_lines(v: UclV) -> Seq<Seq<char>> {
    seq!["conditions:"@, field_line("  required: "@, dec_of(v.required.len()))] + conds_lines(
        v.required,
    ) + seq![
        field_line(
            "  optional: "@,
            opt_count_payload(
                match v.optional {
                    Option::Some(l) => Option::Some(l.len() as int),
                    Option::None => Option::None,
                },
            ),
        ),
    ] + (match v.optional {
        Option::Some(l) => conds_lines(l),
        Option::None => Seq::<Seq<char>>::empty(),
    }) + seq![field_line("oracles: "@, dec_of(v.oracles.len()))] + oracles_lines(v.oracles)
        + seq![field_line("rules: "@, dec_of(v.rules.len()))] + rules_lines(v.rules)
}

/// Every line of a persisted contract, in order.
pub open spec fn contract_lines(v: UclV) -> Seq<Seq<char>> {
    head_lines(v) + mid_lines(v) + pay_lines(v) + tail_lines(v)
}

/// The persisted YAML-style text of a contract.
pub open spec fn yaml_text(c: UCLContract) -> Seq<char> {
    text_of_lines(contract_lines(ucl_view(c)))
}

// ------------------------------------------------------------------
// Emitting
// ------------------------------------------------------------------
/// Append one escaped field line.
fn push_field_line(out: &mut Vec<String>, prefix: &str, value: &str)
    ensures
        seq_views(final(out)@) == seq_views(old(out)@).push(
            field_line(prefix@, escape_text(value@)),
        ),
{
    let mut l = String::from_str(prefix);
    push_escaped(&mut l, value);
    out.push(l);
    proof {
        assert(seq_views(out@) =~= seq_views(old(out)@).push(
            field_line(prefix@, escape_text(value@)),
        ));
    }
}

/// Append one line with a raw payload.
fn push_raw_line(out: &mut Vec<String>, prefix: &str, payload: &str)
    ensures
        seq_views(final(out)@) == seq_views(old(out)@).push(field_line(prefix@, payload@)),
{
    let mut l = String::from_str(prefix);
    l.append(payload);
    out.push(l);
    proof {
        assert(seq_views(out@) =~= seq_views(old(out)@).push(field_line(prefix@, payload@)));
    }
}

/// Append one fixed line.
fn push_plain_line(out: &mut Vec<String>, line: &str)
    ensures
        seq_views(final(out)@) == seq_views(old(out)@).push(line@),
{
    out.push(String::from_str(line));
    proof {
        assert(seq_views(out@) =~= seq_views(old(out)@).push(line@));
    }
}

/// Append an optional string field line.
fn push_opt_line(out: &mut Vec<String>, prefix: &str, o: &Option<String>)
    ensures
        seq_views(final(out)@) == seq_views(old(out)@).push(
            field_line(prefix@, opt_payload(opt_view(*o))),
        ),
{
    match o {
        Some(v) => push_field_line(out, prefix, v.as_str()),
        None => {
            push_raw_line(out, prefix, "~");
            proof {
                reveal_strlit("~");
                assert("~"@ =~= seq!['~']);
            }
        },
    }
}

/// Append a count line.
fn push_count_line(out: &mut Vec<String>, prefix: &str, n: usize)
    ensures
        seq_views(final(out)@) == seq_views(old(out)@).push(
            field_line(prefix@, dec_of(n as nat)),
        ),
{
    let d = u64_to_dec(n as u64);
    push_raw_line(out, prefix, d.as_str());
}

/// Append an amount line.
fn push_amount_line(out: &mut Vec<String>, prefix: &str, a: &Amount)
    ensures
        seq_views(final(out)@) == seq_views(old(out)@).push(
            field_line(prefix@, amount_text(a@)),
        ),
{
    let d = a.render();
    push_raw_line(out, prefix, d.as_str());
}

/// Append an optional amount line.
fn push_opt_amount_line(out: &mut Vec<String>, prefix: &str, o: &Option<Amount>)
    ensures
        seq_views(final(out)@) == seq_views(old(out)@).push(
            field_line(
                prefix@,
                opt_amount_payload(
                    match *o {
                        Option::Some(a) => Option::Some(a@),
                        Option::None => Option::None,
                    },
                ),
            ),
        ),
{
    match o {
        Some(a) => push_amount_line(out, prefix, a),
        None => {
            push_raw_line(out, prefix, "~");
            proof {
                reveal_strlit("~");
                assert("~"@ =~= seq!['~']);
            }
        },
    }
}

/// Append a boolean line.
fn push_bool_line(out: &mut Vec<String>, prefix: &str, b: bool)
    ensures
        seq_views(final(out)@) == seq_views(old(out)@).push(field_line(prefix@, bool_text(b))),
{
    if b {
        push_raw_line(out, prefix, "true");
    } else {
        push_raw_line(out, prefix, "false");
    }
}

/// Append a signed integer line.
fn push_int_line(out: &mut Vec<String>, prefix: &str, i: i64)
    ensures
        seq_views(final(out)@) == seq_views(old(out)@).push(
            field_line(prefix@, int_text(i as int)),
        ),
{
    let mut l = String::from_str(prefix);
    if i < 0 {
        l.push('-');
        let mag: u64 = (-(i as i128)) as u64;
        crate::num::push_dec_u64(&mut l, mag);
        proof {
            assert(l@ =~= field_line(prefix@, int_text(i as int)));
        }
    } else {
        crate::num::push_dec_u64(&mut l, i as u64);
        proof {
            assert(l@ =~= field_line(prefix@, int_text(i as int)));
        }
    }
    out.push(l);
    proof {
        assert(seq_views(out@) =~= seq_views(old(out)@).push(
            field_line(prefix@, int_text(i as int)),
        ));
    }
}

/// Lists of party lines grow from the back.
proof fn lemma_parties_lines_push(ps: Seq<PartyV>, p: PartyV)
    ensures
        parties_lines(ps.push(p)) == parties_lines(ps) + party_lines(p),
    decreases ps.len(),
{
    if ps.len() == 0 {
        assert(ps.push(p)[0] == p);
        assert(ps.push(p).subrange(1, 1) =~= Seq::<PartyV>::empty());
        assert(parties_lines(Seq::<PartyV>::empty()) =~= Seq::<Seq<char>>::empty());
        assert(parties_lines(ps) =~= Seq::<Seq<char>>::empty());
        assert(parties_lines(ps.push(p)) == party_lines(p) + parties_lines(
            ps.push(p).subrange(1, 1),
        ));
        assert(parties_lines(ps.push(p)) =~= parties_lines(ps) + party_lines(p));
    } else {
        assert(ps.push(p).subrange(1, ps.len() as int + 1) =~= ps.subrange(
            1,
            ps.len() as int,
        ).push(p));
        lemma_parties_lines_push(ps.subrange(1, ps.len() as int), p);
        assert(ps.push(p)[0] == ps[0]);
        assert(parties_lines(ps.push(p)) =~= parties_lines(ps) + party_lines(p));
    }
}

/// Lists of item lines grow from the back.
proof fn lemma_item_lines_push(items: Seq<Seq<char>>, x: Seq<char>)
    ensures
        item_lines(items.push(x)) == item_lines(items) + seq![field_line("  - "@, escape_text(x))],
    decreases items.len(),
{
    if items.len() == 0 {
        assert(items.push(x)[0] == x);
        assert(items.push(x).subrange(1, 1) =~= Seq::<Seq<char>>::empty());
        assert(item_lines(Seq::<Seq<char>>::empty()) =~= Seq::<Seq<char>>::empty());
        assert(item_lines(items) =~= Seq::<Seq<char>>::empty());
        assert(item_lines(items.push(x)) == seq![field_line("  - "@, escape_text(x))] + item_lines(
            items.push(x).subrange(1, 1),
        ));
        assert(item_lines(items.push(x)) =~= item_lines(items) + seq![
            field_line("  - "@, escape_text(x)),
        ]);
    } else {
        assert(items.push(x).subrange(1, items.len() as int + 1) =~= items.subrange(
            1,
            items.len() as int,
        ).push(x));
        lemma_item_lines_push(items.subrange(1, items.len() as int), x);
        assert(items.push(x)[0] == items[0]);
        assert(item_lines(items.push(x)) =~= item_lines(items) + seq![
            field_line("  - "@, escape_text(x)),
        ]);
    }
}

/// Lists of metadata entry lines grow from the back.
proof fn lemma_meta_entries_lines_push(es: Seq<MetaEntryV>, e: MetaEntryV)
    ensures
        meta_entries_lines(es.push(e)) == meta_entries_lines(es) + meta_entry_lines(e),
    decreases es.len(),
{
    if es.len() == 0 {
        assert(es.push(e)[0] == e);
        assert(es.push(e).subrange(1, 1) =~= Seq::<MetaEntryV>::empty());
        assert(meta_entries_lines(Seq::<MetaEntryV>::empty()) =~= Seq::<Seq<char>>::empty());
        assert(meta_entries_lines(es) =~= Seq::<Seq<char>>::empty());
        assert(meta_entries_lines(es.push(e)) == meta_entry_lines(e) + meta_entries_lines(
            es.push(e).subrange(1, 1),
        ));
        assert(meta_entries_lines(es.push(e)) =~= meta_entries_lines(es) + meta_entry_lines(e));
    } else {
        assert(es.push(e).subrange(1, es.len() as int + 1) =~= es.subrange(
            1,
            es.len() as int,
        ).push(e));
        lemma_meta_entries_lines_push(es.subrange(1, es.len() as int), e);
        assert(es.push(e)[0] == es[0]);
        assert(meta_entries_lines(es.push(e)) =~= meta_entries_lines(es) + meta_entry_lines(e));
    }
}

/// Lists of condition lines grow from the back.
proof fn lemma_conds_lines_push(cs: Seq<CondV>, c: CondV)
    ensures
        conds_lines(cs.push(c)) == conds_lines(cs) + cond_lines(c),
    decreases cs.len(),
{
    if cs.len() == 0 {
        assert(cs.push(c)[0] == c);
        assert(cs.push(c).subrange(1, 1) =~= Seq::<CondV>::empty());
        assert(conds_lines(Seq::<CondV>::empty()) =~= Seq::<Seq<char>>::empty());
        assert(conds_lines(cs) =~= Seq::<Seq<char>>::empty());
        assert(conds_lines(cs.push(c)) == cond_lines(c) + conds_lines(cs.push(c).subrange(1, 1)));
        assert(conds_lines(cs.push(c)) =~= conds_lines(cs) + cond_lines(c));
    } else {
        assert(cs.push(c).subrange(1, cs.len() as int + 1) =~= cs.subrange(
            1,
            cs.len() as int,
        ).push(c));
        lemma_conds_lines_push(cs.subrange(1, cs.len() as int), c);
        assert(cs.push(c)[0] == cs[0]);
        assert(conds_lines(cs.push(c)) =~= conds_lines(cs) + cond_lines(c));
    }
}

/// Lists of oracle lines grow from the back.
proof fn lemma_oracles_lines_push(os: Seq<OracleV>, o: OracleV)
    ensures
        oracles_lines(os.push(o)) == oracles_lines(os) + oracle_lines(o),
    decreases os.len(),
{
    if os.len() == 0 {
        assert(os.push(o)[0] == o);
        assert(os.push(o).subrange(1, 1) =~= Seq::<OracleV>::empty());
        assert(oracles_lines(Seq::<OracleV>::empty()) =~= Seq::<Seq<char>>::empty());
        assert(oracles_lines(os) =~= Seq::<Seq<char>>::empty());
        assert(oracles_lines(os.push(o)) == oracle_lines(o) + oracles_lines(
            os.push(o).subrange(1, 1),
        ));
        assert(oracles_lines(os.push(o)) =~= oracles_lines(os) + oracle_lines(o));
    } else {
        assert(os.push(o).subrange(1, os.len() as int + 1) =~= os.subrange(
            1,
            os.len() as int,
        ).push(o));
        lemma_oracles_lines_push(os.subrange(1, os.len() as int), o);
        assert(os.push(o)[0] == os[0]);
        assert(oracles_lines(os.push(o)) =~= oracles_lines(os) + oracle_lines(o));
    }
}

/// Lists of action lines grow from the back.
proof fn lemma_actions_lines_push(az: Seq<ActionV>, a: ActionV)
    ensures
        actions_lines(az.push(a)) == actions_lines(az) + action_lines(a),
    decreases az.len(),
{
    if az.len() == 0 {
        assert(az.push(a)[0] == a);
        assert(az.push(a).subrange(1, 1) =~= Seq::<ActionV>::empty());
        assert(actions_lines(Seq::<ActionV>::empty()) =~= Seq::<Seq<char>>::empty());
        assert(actions_lines(az) =~= Seq::<Seq<char>>::empty());
        assert(actions_lines(az.push(a)) == action_lines(a) + actions_lines(
            az.push(a).subrange(1, 1),
        ));
        assert(actions_lines(az.push(a)) =~= actions_lines(az) + action_lines(a));
    } else {
        assert(az.push(a).subrange(1, az.len() as int + 1) =~= az.subrange(
            1,
            az.len() as int,
        ).push(a));
        lemma_actions_lines_push(az.subrange(1, az.len() as int), a);
        assert(az.push(a)[0] == az[0]);
        assert(actions_lines(az.push(a)) =~= actions_lines(az) + action_lines(a));
    }
}

/// Lists of rule lines grow from the back.
proof fn lemma_rules_lines_push(rs: Seq<RuleV>, r: RuleV)
    ensures
        rules_lines(rs.push(r)) == rules_lines(rs) + rule_lines(r),
    decreases rs.len(),
{
    if rs.len() == 0 {
        assert(rs.push(r)[0] == r);
        assert(rs.push(r).subrange(1, 1) =~= Seq::<RuleV>::empty());
        assert(rules_lines(Seq::<RuleV>::empty()) =~= Seq::<Seq<char>>::empty());
        assert(rules_lines(rs) =~= Seq::<Seq<char>>::empty());
        assert(rules_lines(rs.push(r)) == rule_lines(r) + rules_lines(rs.push(r).subrange(1, 1)));
        assert(rules_lines(rs.push(r)) =~= rules_lines(rs) + rule_lines(r));
    } else {
        assert(rs.push(r).subrange(1, rs.len() as int + 1) =~= rs.subrange(
            1,
            rs.len() as int,
        ).push(r));
        lemma_rules_lines_push(rs.subrange(1, rs.len() as int), r);
        assert(rs.push(r)[0] == rs[0]);
        assert(rules_lines(rs.push(r)) =~= rules_lines(rs) + rule_lines(r));
    }
}

/// Emit the lines of a party list.
fn emit_parties(out: &mut Vec<String>, ps: &Vec<PartyInfo>)
    ensures
        seq_views(final(out)@) == seq_views(old(out)@) + parties_lines(
            Seq::new(ps@.len(), |i: int| party_view(ps@[i])),
        ),
{
    let ghost pv = Seq::new(ps@.len(), |i: int| party_view(ps@[i]));
    let mut i: usize = 0;
    proof {
        assert(pv.take(0) =~= Seq::<PartyV>::empty());
        assert(seq_views(out@) =~= seq_views(out@) + parties_lines(pv.take(0)));
    }
    while i < ps.len()
        invariant
            0 <= i <= ps@.len(),
            pv == Seq::new(ps@.len(), |k: int| party_view(ps@[k])),
            pv.len() == ps@.len(),
            seq_views(out@) == seq_views(old(out)@) + parties_lines(pv.take(i as int)),
        decreases ps@.len() - i,
    {
        let ghost before = seq_views(out@);
        push_field_line(out, "- role: ", ps[i].role.as_str());
        push_field_line(out, "  identifier: ", ps[i].identifier.as_str());
        push_opt_line(out, "  name: ", &ps[i].name);
        proof {
            assert(pv[i as int] == party_view(ps@[i as int]));
            assert(seq_views(out@) =~= before + party_lines(pv[i as int]));
            assert(pv.take(i + 1) =~= pv.take(i as int).push(pv[i as int]));
            lemma_parties_lines_push(pv.take(i as int), pv[i as int]);
            assert(seq_views(out@) =~= seq_views(old(out)@) + parties_lines(pv.take(i + 1)));
        }
        i = i + 1;
    }
    proof {
        assert(pv.take(pv.len() as int) =~= pv);
    }
}

/// Emit the lines of a string list's items.
fn emit_items(out: &mut Vec<String>, items: &Vec<String>)
    ensures
        seq_views(final(out)@) == seq_views(old(out)@) + item_lines(
            Seq::new(items@.len(), |i: int| items@[i]@),
        ),
{
    let ghost iv = Seq::new(items@.len(), |i: int| items@[i]@);
    let mut i: usize = 0;
    proof {
        assert(iv.take(0) =~= Seq::<Seq<char>>::empty());
        assert(seq_views(out@) =~= seq_views(out@) + item_lines(iv.take(0)));
    }
    while i < items.len()
        invariant
            0 <= i <= items@.len(),
            iv == Seq::new(items@.len(), |k: int| items@[k]@),
            iv.len() == items@.len(),
            seq_views(out@) == seq_views(old(out)@) + item_lines(iv.take(i as int)),
        decreases items@.len() - i,
    {
        let ghost before = seq_views(out@);
        push_field_line(out, "  - ", items[i].as_str());
        proof {
            assert(iv[i as int] == items@[i as int]@);
            assert(seq_views(out@) =~= before + seq![
                field_line("  - "@, escape_text(iv[i as int])),
            ]);
            assert(iv.take(i + 1) =~= iv.take(i as int).push(iv[i as int]));
            lemma_item_lines_push(iv.take(i as int), iv[i as int]);
            assert(seq_views(out@) =~= seq_views(old(out)@) + item_lines(iv.take(i + 1)));
        }
        i = i + 1;
    }
    proof {
        assert(iv.take(iv.len() as int) =~= iv);
    }
}

/// Emit the lines of one metadata value.
fn emit_meta_value(out: &mut Vec<String>, v: &MetaValue)
    ensures
        seq_views(final(out)@) == seq_views(old(out)@) + meta_val_lines(meta_val_view(*v)),
{
    match v {
        MetaValue::Text(s) => {
            push_field_line(out, "  text: ", s.as_str());
            proof {
                assert(seq_views(out@) =~= seq_views(old(out)@) + meta_val_lines(
                    meta_val_view(*v),
                ));
            }
        },
        MetaValue::Integer(i) => {
            push_int_line(out, "  int: ", *i);
            proof {
                assert(seq_views(out@) =~= seq_views(old(out)@) + meta_val_lines(
                    meta_val_view(*v),
                ));
            }
        },
        MetaValue::Decimal(a) => {
            push_amount_line(out, "  dec: ", a);
            proof {
                assert(seq_views(out@) =~= seq_views(old(out)@) + meta_val_lines(
                    meta_val_view(*v),
                ));
            }
        },
        MetaValue::Flag(b) => {
            push_bool_line(out, "  flag: ", *b);
            proof {
                assert(seq_views(out@) =~= seq_views(old(out)@) + meta_val_lines(
                    meta_val_view(*v),
                ));
            }
        },
        MetaValue::TextList(l) => {
            push_count_line(out, "  items: ", l.len());
            emit_items(out, l);
            proof {
                assert(seq_views(out@) =~= seq_views(old(out)@) + meta_val_lines(
                    meta_val_view(*v),
                ));
            }
        },
    }
}

/// Emit the lines of a metadata entry list.
fn emit_meta_entries(out: &mut Vec<String>, es: &Vec<MetaEntry>)
    ensures
        seq_views(final(out)@) == seq_views(old(out)@) + meta_entries_lines(
            Seq::new(es@.len(), |i: int| meta_entry_view(es@[i])),
        ),
{
    let ghost ev = Seq::new(es@.len(), |i: int| meta_entry_view(es@[i]));
    let mut i: usize = 0;
    proof {
        assert(ev.take(0) =~= Seq::<MetaEntryV>::empty());
        assert(seq_views(out@) =~= seq_views(out@) + meta_entries_lines(ev.take(0)));
    }
    while i < es.len()
        invariant
            0 <= i <= es@.len(),
            ev == Seq::new(es@.len(), |k: int| meta_entry_view(es@[k])),
            ev.len() == es@.len(),
            seq_views(out@) == seq_views(old(out)@) + meta_entries_lines(ev.take(i as int)),
        decreases es@.len() - i,
    {
        let ghost before = seq_views(out@);
        push_field_line(out, "- key: ", es[i].key.as_str());
        emit_meta_value(out, &es[i].value);
        proof {
            assert(ev[i as int] == meta_entry_view(es@[i as int]));
            assert(seq_views(out@) =~= before + meta_entry_lines(ev[i as int]));
            assert(ev.take(i + 1) =~= ev.take(i as int).push(ev[i as int]));
            lemma_meta_entries_lines_push(ev.take(i as int), ev[i as int]);
            assert(seq_views(out@) =~= seq_views(old(out)@) + meta_entries_lines(ev.take(i + 1)));
        }
        i = i + 1;
    }
    proof {
        assert(ev.take(ev.len() as int) =~= ev);
    }
}

/// Emit the lines of a condition list.
fn emit_conds(out: &mut Vec<String>, cs: &Vec<ConditionDefinition>)
    ensures
        seq_views(final(out)@) == seq_views(old(out)@) + conds_lines(
            Seq::new(cs@.len(), |i: int| cond_view(cs@[i])),
        ),
{
    let ghost cv = Seq::new(cs@.len(), |i: int| cond_view(cs@[i]));
    let mut i: usize = 0;
    proof {
        assert(cv.take(0) =~= Seq::<CondV>::empty());
        assert(seq_views(out@) =~= seq_views(out@) + conds_lines(cv.take(0)));
    }
    while i < cs.len()
        invariant
            0 <= i <= cs@.len(),
            cv == Seq::new(cs@.len(), |k: int| cond_view(cs@[k])),
            cv.len() == cs@.len(),
            seq_views(out@) == seq_views(old(out)@) + conds_lines(cv.take(i as int)),
        decreases cs@.len() - i,
    {
        let ghost before = seq_views(out@);
        push_field_line(out, "- id: ", cs[i].id.as_str());
        push_field_line(out, "  description: ", cs[i].description.as_str());
        push_field_line(out, "  source: ", cs[i].source.as_str());
        push_field_line(out, "  operator: ", cs[i].operator.as_str());
        push_opt_amount_line(out, "  threshold: ", &cs[i].threshold);
        proof {
            assert(cv[i as int] == cond_view(cs@[i as int]));
            assert(seq_views(out@) =~= before + cond_lines(cv[i as int]));
            assert(cv.take(i + 1) =~= cv.take(i as int).push(cv[i as int]));
            lemma_conds_lines_push(cv.take(i as int), cv[i as int]);
            assert(seq_views(out@) =~= seq_views(old(out)@) + conds_lines(cv.take(i + 1)));
        }
        i = i + 1;
    }
    proof {
        assert(cv.take(cv.len() as int) =~= cv);
    }
}

/// Emit the lines of an oracle list.
fn emit_oracles(out: &mut Vec<String>, os: &Vec<OracleDefinition>)
    ensures
        seq_views(final(out)@) == seq_views(old(out)@) + oracles_lines(
            Seq::new(os@.len(), |i: int| oracle_view(os@[i])),
        ),
{
    let ghost ov = Seq::new(os@.len(), |i: int| oracle_view(os@[i]));
    let mut i: usize = 0;
    proof {
        assert(ov.take(0) =~= Seq::<OracleV>::empty());
        assert(seq_views(out@) =~= seq_views(out@) + oracles_lines(ov.take(0)));
    }
    while i < os.len()
        invariant
            0 <= i <= os@.len(),
            ov == Seq::new(os@.len(), |k: int| oracle_view(os@[k])),
            ov.len() == os@.len(),
            seq_views(out@) == seq_views(old(out)@) + oracles_lines(ov.take(i as int)),
        decreases os@.len() - i,
    {
        let ghost before = seq_views(out@);
        push_field_line(out, "- id: ", os[i].id.as_str());
        push_field_line(out, "  type: ", os[i].oracle_type.as_str());
        push_opt_line(out, "  endpoint: ", &os[i].endpoint);
        push_field_line(out, "  refresh_rate: ", os[i].refresh_rate.as_str());
        push_bool_line(out, "  required: ", os[i].required);
        proof {
            assert(ov[i as int] == oracle_view(os@[i as int]));
            assert(seq_views(out@) =~= before + oracle_lines(ov[i as int]));
            assert(ov.take(i + 1) =~= ov.take(i as int).push(ov[i as int]));
            lemma_oracles_lines_push(ov.take(i as int), ov[i as int]);
            assert(seq_views(out@) =~= seq_views(old(out)@) + oracles_lines(ov.take(i + 1)));
        }
        i = i + 1;
    }
    proof {
        assert(ov.take(ov.len() as int) =~= ov);
    }
}

/// Emit the count-or-tilde line and items of an optional string list.
fn emit_opt_items(out: &mut Vec<String>, prefix: &str, o: &Option<Vec<String>>)
    ensures
        seq_views(final(out)@) == seq_views(old(out)@) + opt_items_lines(
            prefix@,
            match *o {
                Option::Some(l) => Option::Some(Seq::new(l@.len(), |i: int| l@[i]@)),
                Option::None => Option::None,
            },
        ),
{
    match o {
        Some(l) => {
            push_count_line(out, prefix, l.len());
            emit_items(out, l);
            proof {
                assert(seq_views(out@) =~= seq_views(old(out)@) + opt_items_lines(
                    prefix@,
                    Option::Some(Seq::new(l@.len(), |i: int| l@[i]@)),
                ));
            }
        },
        None => {
            push_raw_line(out, prefix, "~");
            proof {
                reveal_strlit("~");
                assert("~"@ =~= seq!['~']);
                assert(seq_views(out@) =~= seq_views(old(out)@) + opt_items_lines(
                    prefix@,
                    Option::None,
                ));
            }
        },
    }
}

/// Emit the lines of a rule list.
fn emit_rules(out: &mut Vec<String>, rs: &Vec<RuleDefinition>)
    ensures
        seq_views(final(out)@) == seq_views(old(out)@) + rules_lines(
            Seq::new(rs@.len(), |i: int| rule_view(rs@[i])),
        ),
{
    let ghost rv = Seq::new(rs@.len(), |i: int| rule_view(rs@[i]));
    let mut i: usize = 0;
    proof {
        assert(rv.take(0) =~= Seq::<RuleV>::empty());
        assert(seq_views(out@) =~= seq_views(out@) + rules_lines(rv.take(0)));
    }
    while i < rs.len()
        invariant
            0 <= i <= rs@.len(),
            rv == Seq::new(rs@.len(), |k: int| rule_view(rs@[k])),
            rv.len() == rs@.len(),
            seq_views(out@) == seq_views(old(out)@) + rules_lines(rv.take(i as int)),
        decreases rs@.len() - i,
    {
        let ghost before = seq_views(out@);
        push_field_line(out, "- rule_id: ", rs[i].rule_id.as_str());
        push_field_line(out, "  name: ", rs[i].name.as_str());
        push_field_line(out, "  trigger: ", rs[i].trigger.as_str());
        emit_opt_items(out, "  all_of: ", &rs[i].conditions.all_of);
        emit_opt_items(out, "  any_of: ", &rs[i].conditions.any_of);
        push_count_line(out, "  actions: ", rs[i].actions.len());
        let ghost mid = seq_views(out@);
        let actions = &rs[i].actions;
        let ghost av = Seq::new(actions@.len(), |k: int| action_view(actions@[k]));
        let mut k: usize = 0;
        proof {
            assert(av.take(0) =~= Seq::<ActionV>::empty());
            assert(seq_views(out@) =~= mid + actions_lines(av.take(0)));
        }
        while k < actions.len()
            invariant
                0 <= k <= actions@.len(),
                av == Seq::new(actions@.len(), |m: int| action_view(actions@[m])),
                av.len() == actions@.len(),
                seq_views(out@) == mid + actions_lines(av.take(k as int)),
            decreases actions@.len() - k,
        {
            let ghost abefore = seq_views(out@);
            push_field_line(out, "- action: ", actions[k].action.as_str());
            push_count_line(out, "  params: ", actions[k].params.len());
            emit_meta_entries(out, &actions[k].params);
            proof {
                assert(av[k as int] == action_view(actions@[k as int]));
                assert(seq_views(out@) =~= abefore + action_lines(av[k as int]));
                assert(av.take(k + 1) =~= av.take(k as int).push(av[k as int]));
                lemma_actions_lines_push(av.take(k as int), av[k as int]);
                assert(seq_views(out@) =~= mid + actions_lines(av.take(k + 1)));
            }
            k = k + 1;
        }
        proof {
            assert(av.take(av.len() as int) =~= av);
            assert(rv[i as int] == rule_view(rs@[i as int]));
            assert(seq_views(out@) =~= before + rule_lines(rv[i as int]));
            assert(rv.take(i + 1) =~= rv.take(i as int).push(rv[i as int]));
            lemma_rules_lines_push(rv.take(i as int), rv[i as int]);
            assert(seq_views(out@) =~= seq_views(old(out)@) + rules_lines(rv.take(i + 1)));
        }
        i = i + 1;
    }
    proof {
        assert(rv.take(rv.len() as int) =~= rv);
    }
}

/// Render a contract in the persisted YAML-style format.
#[verifier::rlimit(100)]
pub fn export_yaml(ucl: &UCLContract) -> (r: Result<String, Error>)
    ensures
        r is Ok,
        r matches Ok(s) ==> s@ == yaml_text(*ucl),
{
    let mut out: Vec<String> = Vec::new();
    push_field_line(&mut out, "contract_id: ", ucl.contract_id.as_str());
    push_field_line(&mut out, "version: ", ucl.version.as_str());
    push_field_line(&mut out, "standard: ", ucl.standard.as_str());
    push_plain_line(&mut out, "summary:");
    push_field_line(&mut out, "  title: ", ucl.summary.title.as_str());
    push_field_line(&mut out, "  plain_english: ", ucl.summary.plain_english.as_str());
    push_field_line(&mut out, "  what_it_does: ", ucl.summary.what_it_does.as_str());
    push_field_line(&mut out, "  who_its_for: ", ucl.summary.who_its_for.as_str());
    push_field_line(&mut out, "  when_it_executes: ", ucl.summary.when_it_executes.as_str());
    push_plain_line(&mut out, "metadata:");
    push_field_line(&mut out, "  type: ", ucl.metadata.contract_type.as_str());
    push_field_line(&mut out, "  category: ", ucl.metadata.category.as_str());
    push_count_line(&mut out, "  parties: ", ucl.metadata.parties.len());
    emit_parties(&mut out, &ucl.metadata.parties);
    push_field_line(&mut out, "  effective: ", ucl.metadata.dates.effective.as_str());
    push_field_line(&mut out, "  duration: ", ucl.metadata.dates.duration.as_str());
    push_field_line(&mut out, "  renewal: ", ucl.metadata.dates.renewal.as_str());
    push_count_line(&mut out, "  extra: ", ucl.metadata.extra.len());
    emit_meta_entries(&mut out, &ucl.metadata.extra);
    push_plain_line(&mut out, "payment:");
    push_field_line(&mut out, "  structure: ", ucl.payment.structure.as_str());
    push_amount_line(&mut out, "  amount: ", &ucl.payment.amount);
    push_field_line(&mut out, "  currency: ", ucl.payment.currency.as_str());
    push_field_line(&mut out, "  token: ", ucl.payment.token.as_str());
    push_field_line(&mut out, "  blockchain: ", ucl.payment.blockchain.as_str());
    push_field_line(&mut out, "  frequency: ", ucl.payment.frequency.as_str());
    push_plain_line(&mut out, "conditions:");
    push_count_line(&mut out, "  required: ", ucl.conditions.required.len());
    emit_conds(&mut out, &ucl.conditions.required);
    match &ucl.conditions.optional {
        Some(l) => {
            push_count_line(&mut out, "  optional: ", l.len());
            emit_conds(&mut out, l);
        },
        None => {
            push_raw_line(&mut out, "  optional: ", "~");
            proof {
                reveal_strlit("~");
                assert("~"@ =~= seq!['~']);
            }
        },
    }
    push_count_line(&mut out, "oracles: ", ucl.oracles.len());
    emit_oracles(&mut out, &ucl.oracles);
    push_count_line(&mut out, "rules: ", ucl.rules.len());
    emit_rules(&mut out, &ucl.rules);
    proof {
        assert(seq_views(out@) =~= contract_lines(ucl_view(*ucl)));
    }
    let text = join_lines(&out);
    Ok(text)
}

/// Render a contract in a named persisted format: YAML-style or JSON; any
/// other format name is rejected, naming the format.
pub fn render_contract(ucl: &UCLContract, format: &str) -> (r: Result<String, Error>)
    ensures
        format@ == "yaml"@ || format@ == "yml"@ ==> (r matches Ok(s) && s@ == yaml_text(*ucl)),
        format@ == "json"@ ==> (r matches Ok(s) && s@ == crate::json::json_text(ucl_view(*ucl))),
        format@ != "yaml"@ && format@ != "yml"@ && format@ != "json"@ ==> (r matches Err(
            Error::ValidationError(m),
        ) && m@ == "Unsupported format: "@ + format@),
{
    proof {
        reveal_strlit("yaml");
        reveal_strlit("yml");
        reveal_strlit("json");
        assert("yaml"@.len() == 4);
        assert("yml"@.len() == 3);
        assert("json"@.len() == 4);
        assert("yaml"@[0] == 'y');
        assert("json"@[0] == 'j');
    }
    if str_eq(format, "yaml") || str_eq(format, "yml") {
        export_yaml(ucl)
    } else if str_eq(format, "json") {
        crate::json::export_json(ucl)
    } else {
        let mut m = String::from_str("Unsupported format: ");
        m.append(format);
        Err(Error::ValidationError(m))
    }
}

} // verus!
