//! The JSON rendering of a contract.
//!
//! A one-way, deterministic export: every field of the schema under its
//! exact name, free text escaped so the output is always well-formed JSON.

use vstd::prelude::*;
use crate::amount::amount_text;
use crate::codec::{
    ActionV, CondV, MetaEntryV, MetaValV, OracleV, PartyV, RuleV, UclV, action_view, bool_text,
    cond_view, int_text, meta_entry_view, meta_val_view, oracle_view, party_view, rule_view,
    ucl_view,
};
use crate::error::Error;
use crate::model::{
    ConditionDefinition, MetaEntry, MetaValue, OracleDefinition, PartyInfo, RuleDefinition,
    UCLContract,
};
use crate::text::{json_escape, push_json_escaped};

verus! {

/// A JSON string literal.
pub open spec fn json_str(s: Seq<char>) -> Seq<char> {
    seq!['"'] + json_escape(s) + seq!['"']
}

/// A JSON string or null.
pub open spec fn json_opt_str(o: Option<Seq<char>>) -> Seq<char> {
    match o {
        Option::Some(s) => json_str(s),
        Option::None => "null"@,
    }
}

/// A JSON number or null.
pub open spec fn json_opt_amount(o: Option<int>) -> Seq<char> {
    match o {
        Option::Some(a) => amount_text(a),
        Option::None => "null"@,
    }
}

/// The comma-separated body of a JSON array of strings.
pub open spec fn json_strs_body(l: Seq<Seq<char>>) -> Seq<char>
    decreases l.len(),
{
    if l.len() == 0 {
        Seq::<char>::empty()
    } else if l.len() == 1 {
        json_str(l[0])
    } else {
        json_strs_body(l.drop_last()) + seq![','] + json_str(l.last())
    }
}

/// A JSON metadata value.
pub open spec fn json_meta_val(v: MetaValV) -> Seq<char> {
    match v {
        MetaValV::Text(s) => json_str(s),
        MetaValV::Integer(i) => int_text(i),
        MetaValV::Decimal(a) => amount_text(a),
        MetaValV::Flag(b) => bool_text(b),
        MetaValV::TextList(l) => seq!['['] + json_strs_body(l) + seq![']'],
    }
}

/// A JSON metadata entry object.
pub open spec fn json_entry(e: MetaEntryV) -> Seq<char> {
    "{\"key\":"@ + json_str(e.key) + ",\"value\":"@ + json_meta_val(e.value) + "}"@
}

/// The body of a JSON array of metadata entries.
pub open spec fn json_entries_body(es: Seq<MetaEntryV>) -> Seq<char>
    decreases es.len(),
{
    if es.len() == 0 {
        Seq::<char>::empty()
    } else if es.len() == 1 {
        json_entry(es[0])
    } else {
        json_entries_body(es.drop_last()) + seq![','] + json_entry(es.last())
    }
}

/// A JSON party object.
pub open spec fn json_party(p: PartyV) -> Seq<char> {
    "{\"role\":"@ + json_str(p.role) + ",\"identifier\":"@ + json_str(p.identifier)
        + ",\"name\":"@ + json_opt_str(p.name) + "}"@
}

/// The body of a JSON array of parties.
pub open spec fn json_parties_body(ps: Seq<PartyV>) -> Seq<char>
    decreases ps.len(),
{
    if ps.len() == 0 {
        Seq::<char>::empty()
    } else if ps.len() == 1 {
        json_party(ps[0])
    } else {
        json_parties_body(ps.drop_last()) + seq![','] + json_party(ps.last())
    }
}

/// A JSON condition object.
pub open spec fn json_cond(c: CondV) -> Seq<char> {
    "{\"id\":"@ + json_str(c.id) + ",\"description\":"@ + json_str(c.description)
        + ",\"source\":"@ + json_str(c.source) + ",\"operator\":"@ + json_str(c.operator)
        + ",\"threshold\":"@ + json_opt_amount(c.threshold) + "}"@
}

/// The body of a JSON array of conditions.
pub open spec fn json_conds_body(cs: Seq<CondV>) -> Seq<char>
    decreases cs.len(),
{
    if cs.len() == 0 {
        Seq::<char>::empty()
    } else if cs.len() == 1 {
        json_cond(cs[0])
    } else {
        json_conds_body(cs.drop_last()) + seq![','] + json_cond(cs.last())
    }
}

/// A JSON condition list or null.
pub open spec fn json_opt_conds(o: Option<Seq<CondV>>) -> Seq<char> {
    match o {
        Option::Some(cs) => seq!['['] + json_conds_body(cs) + seq![']'],
        Option::None => "null"@,
    }
}

/// A JSON oracle object.
pub open spec fn json_oracle(o: OracleV) -> Seq<char> {
    "{\"id\":"@ + json_str(o.id) + ",\"type\":"@ + json_str(o.oracle_type) + ",\"endpoint\":"@
        + json_opt_str(o.endpoint) + ",\"refresh_rate\":"@ + json_str(o.refresh_rate)
        + ",\"required\":"@ + bool_text(o.required) + "}"@
}

/// The body of a JSON array of oracles.
pub open spec fn json_oracles_body(os: Seq<OracleV>) -> Seq<char>
    decreases os.len(),
{
    if os.len() == 0 {
        Seq::<char>::empty()
    } else if os.len() == 1 {
        json_oracle(os[0])
    } else {
        json_oracles_body(os.drop_last()) + seq![','] + json_oracle(os.last())
    }
}

/// A JSON string list or null.
pub open spec fn json_opt_strs(o: Option<Seq<Seq<char>>>) -> Seq<char> {
    match o {
        Option::Some(l) => seq!['['] + json_strs_body(l) + seq![']'],
        Option::None => "null"@,
    }
}

/// A JSON action object.
pub open spec fn json_action(a: ActionV) -> Seq<char> {
    "{\"action\":"@ + json_str(a.action) + ",\"params\":["@ + json_entries_body(a.params) + "]}"@
}

/// The body of a JSON array of actions.
pub open spec fn json_actions_body(az: Seq<ActionV>) -> Seq<char>
    decreases az.len(),
{
    if az.len() == 0 {
        Seq::<char>::empty()
    } else if az.len() == 1 {
        json_action(az[0])
    } else {
        json_actions_body(az.drop_last()) + seq![','] + json_action(az.last())
    }
}

/// A JSON rule object.
pub open spec fn json_rule(r: RuleV) -> Seq<char> {
    "{\"rule_id\":"@ + json_str(r.rule_id) + ",\"name\":"@ + json_str(r.name) + ",\"trigger\":"@
        + json_str(r.trigger) + ",\"conditions\":{\"all_of\":"@ + json_opt_strs(r.all_of)
        + ",\"any_of\":"@ + json_opt_strs(r.any_of) + "},\"actions\":["@ + json_actions_body(
        r.actions,
    ) + "]}"@
}

/// The body of a JSON array of rules.
pub open spec fn json_rules_body(rs: Seq<RuleV>) -> Seq<char>
    decreases rs.len(),
{
    if rs.len() == 0 {
        Seq::<char>::empty()
    } else if rs.len() == 1 {
        json_rule(rs[0])
    } else {
        json_rules_body(rs.drop_last()) + seq![','] + json_rule(rs.last())
    }
}

/// The JSON document of a whole contract.
pub open spec fn json_text(v: UclV) -> Seq<char> {
    "{\"contract_id\":"@ + json_str(v.contract_id) + ",\"version\":"@ + json_str(v.version)
        + ",\"standard\":"@ + json_str(v.standard) + ",\"summary\":{\"title\":"@ + json_str(
        v.title,
    ) + ",\"plain_english\":"@ + json_str(v.plain_english) + ",\"what_it_does\":"@ + json_str(
        v.what_it_does,
    ) + ",\"who_its_for\":"@ + json_str(v.who_its_for) + ",\"when_it_executes\":"@ + json_str(
        v.when_it_executes,
    ) + "},\"metadata\":{\"type\":"@ + json_str(v.contract_type) + ",\"category\":"@ + json_str(
        v.category,
    ) + ",\"parties\":["@ + json_parties_body(v.parties) + "],\"dates\":{\"effective\":"@
        + json_str(v.effective) + ",\"duration\":"@ + json_str(v.duration) + ",\"renewal\":"@
        + json_str(v.renewal) + "},\"extra\":["@ + json_entries_body(v.extra)
        + "]},\"payment\":{\"structure\":"@ + json_str(v.structure) + ",\"amount\":"@
        + amount_text(v.amount) + ",\"currency\":"@ + json_str(v.currency) + ",\"token\":"@
        + json_str(v.token) + ",\"blockchain\":"@ + json_str(v.blockchain) + ",\"frequency\":"@
        + json_str(v.frequency) + "},\"conditions\":{\"required\":["@ + json_conds_body(
        v.required,
    ) + "],\"optional\":"@ + json_opt_conds(v.optional) + "},\"oracles\":["@ + json_oracles_body(
        v.oracles,
    ) + "],\"rules\":["@ + json_rules_body(v.rules) + "]}"@
}

/// Append a JSON string literal.
fn push_json_str(out: &mut String, v: &str)
    ensures
        final(out)@ == old(out)@ + json_str(v@),
{
    out.push('"');
    push_json_escaped(out, v);
    out.push('"');
    proof {
        assert(out@ =~= old(out)@ + json_str(v@));
    }
}

/// Append a JSON string or null.
fn push_json_opt_str(out: &mut String, o: &Option<String>)
    ensures
        final(out)@ == old(out)@ + json_opt_str(crate::codec::opt_view(*o)),
{
    match o {
        Some(s) => push_json_str(out, s.as_str()),
        None => out.append("null"),
    }
}

/// Append a JSON number or null.
fn push_json_opt_amount(out: &mut String, o: &Option<crate::amount::Amount>)
    ensures
        final(out)@ == old(out)@ + json_opt_amount(
            match *o {
                Option::Some(a) => Option::Some(a@),
                Option::None => Option::None,
            },
        ),
{
    match o {
        Some(a) => {
            let t = a.render();
            out.append(t.as_str());
        },
        None => out.append("null"),
    }
}

/// Append a boolean.
fn push_json_bool(out: &mut String, b: bool)
    ensures
        final(out)@ == old(out)@ + bool_text(b),
{
    if b {
        out.append("true");
    } else {
        out.append("false");
    }
}

/// Append the body of a JSON array of strings.
fn push_json_strs_body(out: &mut String, l: &Vec<String>)
    ensures
        final(out)@ == old(out)@ + json_strs_body(Seq::new(l@.len(), |i: int| l@[i]@)),
{
    let ghost lv = Seq::new(l@.len(), |i: int| l@[i]@);
    let mut i: usize = 0;
    proof {
        assert(lv.take(0) =~= Seq::<Seq<char>>::empty());
    }
    while i < l.len()
        invariant
            0 <= i <= l@.len(),
            lv == Seq::new(l@.len(), |k: int| l@[k]@),
            lv.len() == l@.len(),
            out@ == old(out)@ + json_strs_body(lv.take(i as int)),
        decreases l@.len() - i,
    {
        if i > 0 {
            out.push(',');
        }
        push_json_str(out, l[i].as_str());
        proof {
            assert(lv.take(i + 1).drop_last() =~= lv.take(i as int));
            assert(lv.take(i + 1).last() == lv[i as int]);
            assert(out@ =~= old(out)@ + json_strs_body(lv.take(i + 1)));
        }
        i = i + 1;
    }
    proof {
        assert(lv.take(lv.len() as int) =~= lv);
    }
}

/// Append a JSON metadata value.
fn push_json_meta_val(out: &mut String, v: &MetaValue)
    ensures
        final(out)@ == old(out)@ + json_meta_val(meta_val_view(*v)),
{
    match v {
        MetaValue::Text(s) => push_json_str(out, s.as_str()),
        MetaValue::Integer(i) => {
            if *i < 0 {
                out.push('-');
                let mag: u64 = (-(*i as i128)) as u64;
                crate::num::push_dec_u64(out, mag);
                proof {
                    assert(out@ =~= old(out)@ + int_text(*i as int));
                }
            } else {
                crate::num::push_dec_u64(out, *i as u64);
                proof {
                    assert(out@ =~= old(out)@ + int_text(*i as int));
                }
            }
        },
        MetaValue::Decimal(a) => {
            let t = a.render();
            out.append(t.as_str());
        },
        MetaValue::Flag(b) => push_json_bool(out, *b),
        MetaValue::TextList(l) => {
            out.push('[');
            push_json_strs_body(out, l);
            out.push(']');
            proof {
                assert(out@ =~= old(out)@ + json_meta_val(meta_val_view(*v)));
            }
        },
    }
}

/// Append the body of a JSON array of metadata entries.
fn push_json_entries_body(out: &mut String, es: &Vec<MetaEntry>)
    ensures
        final(out)@ == old(out)@ + json_entries_body(
            Seq::new(es@.len(), |i: int| meta_entry_view(es@[i])),
        ),
{
    let ghost ev = Seq::new(es@.len(), |i: int| meta_entry_view(es@[i]));
    let mut i: usize = 0;
    proof {
        assert(ev.take(0) =~= Seq::<MetaEntryV>::empty());
    }
    while i < es.len()
        invariant
            0 <= i <= es@.len(),
            ev == Seq::new(es@.len(), |k: int| meta_entry_view(es@[k])),
            ev.len() == es@.len(),
            out@ == old(out)@ + json_entries_body(ev.take(i as int)),
        decreases es@.len() - i,
    {
        if i > 0 {
            out.push(',');
        }
        let ghost before = out@;
        out.append("{\"key\":");
        push_json_str(out, es[i].key.as_str());
        out.append(",\"value\":");
        push_json_meta_val(out, &es[i].value);
        out.append("}");
        proof {
            assert(out@ =~= before + json_entry(ev[i as int]));
            assert(ev.take(i + 1).drop_last() =~= ev.take(i as int));
            assert(ev.take(i + 1).last() == ev[i as int]);
            assert(out@ =~= old(out)@ + json_entries_body(ev.take(i + 1)));
        }
        i = i + 1;
    }
    proof {
        assert(ev.take(ev.len() as int) =~= ev);
    }
}

/// Append one JSON party object.
fn push_json_party(out: &mut String, p: &PartyInfo)
    ensures
        final(out)@ == old(out)@ + json_party(party_view(*p)),
{
    out.append("{\"role\":");
    push_json_str(out, p.role.as_str());
    out.append(",\"identifier\":");
    push_json_str(out, p.identifier.as_str());
    out.append(",\"name\":");
    push_json_opt_str(out, &p.name);
    out.append("}");
    proof {
        assert(out@ =~= old(out)@ + json_party(party_view(*p)));
    }
}

/// Append the body of a JSON array of parties.
fn push_json_parties_body(out: &mut String, ps: &Vec<PartyInfo>)
    ensures
        final(out)@ == old(out)@ + json_parties_body(
            Seq::new(ps@.len(), |i: int| party_view(ps@[i])),
        ),
{
    let ghost pv = Seq::new(ps@.len(), |i: int| party_view(ps@[i]));
    let mut i: usize = 0;
    proof {
        assert(pv.take(0) =~= Seq::<PartyV>::empty());
    }
    while i < ps.len()
        invariant
            0 <= i <= ps@.len(),
            pv == Seq::new(ps@.len(), |k: int| party_view(ps@[k])),
            pv.len() == ps@.len(),
            out@ == old(out)@ + json_parties_body(pv.take(i as int)),
        decreases ps@.len() - i,
    {
        if i > 0 {
            out.push(',');
        }
        let ghost before = out@;
        push_json_party(out, &ps[i]);
        proof {
            assert(out@ =~= before + json_party(pv[i as int]));
            assert(pv.take(i + 1).drop_last() =~= pv.take(i as int));
            assert(pv.take(i + 1).last() == pv[i as int]);
            assert(out@ =~= old(out)@ + json_parties_body(pv.take(i + 1)));
        }
        i = i + 1;
    }
    proof {
        assert(pv.take(pv.len() as int) =~= pv);
    }
}

/// Append one JSON condition object.
fn push_json_cond(out: &mut String, c: &ConditionDefinition)
    ensures
        final(out)@ == old(out)@ + json_cond(cond_view(*c)),
{
    out.append("{\"id\":");
    push_json_str(out, c.id.as_str());
    out.append(",\"description\":");
    push_json_str(out, c.description.as_str());
    out.append(",\"source\":");
    push_json_str(out, c.source.as_str());
    out.append(",\"operator\":");
    push_json_str(out, c.operator.as_str());
    out.append(",\"threshold\":");
    push_json_opt_amount(out, &c.threshold);
    out.append("}");
    proof {
        assert(out@ =~= old(out)@ + json_cond(cond_view(*c)));
    }
}

/// Append the body of a JSON array of conditions.
fn push_json_conds_body(out: &mut String, cs: &Vec<ConditionDefinition>)
    ensures
        final(out)@ == old(out)@ + json_conds_body(
            Seq::new(cs@.len(), |i: int| cond_view(cs@[i])),
        ),
{
    let ghost cv = Seq::new(cs@.len(), |i: int| cond_view(cs@[i]));
    let mut i: usize = 0;
    proof {
        assert(cv.take(0) =~= Seq::<CondV>::empty());
    }
    while i < cs.len()
        invariant
            0 <= i <= cs@.len(),
            cv == Seq::new(cs@.len(), |k: int| cond_view(cs@[k])),
            cv.len() == cs@.len(),
            out@ == old(out)@ + json_conds_body(cv.take(i as int)),
        decreases cs@.len() - i,
    {
        if i > 0 {
            out.push(',');
        }
        let ghost before = out@;
        push_json_cond(out, &cs[i]);
        proof {
            assert(out@ =~= before + json_cond(cv[i as int]));
            assert(cv.take(i + 1).drop_last() =~= cv.take(i as int));
            assert(cv.take(i + 1).last() == cv[i as int]);
            assert(out@ =~= old(out)@ + json_conds_body(cv.take(i + 1)));
        }
        i = i + 1;
    }
    proof {
        assert(cv.take(cv.len() as int) =~= cv);
    }
}

/// Append one JSON oracle object.
fn push_json_oracle(out: &mut String, o: &OracleDefinition)
    ensures
        final(out)@ == old(out)@ + json_oracle(oracle_view(*o)),
{
    out.append("{\"id\":");
    push_json_str(out, o.id.as_str());
    out.append(",\"type\":");
    push_json_str(out, o.oracle_type.as_str());
    out.append(",\"endpoint\":");
    push_json_opt_str(out, &o.endpoint);
    out.append(",\"refresh_rate\":");
    push_json_str(out, o.refresh_rate.as_str());
    out.append(",\"required\":");
    push_json_bool(out, o.required);
    out.append("}");
    proof {
        assert(out@ =~= old(out)@ + json_oracle(oracle_view(*o)));
    }
}

/// Append the body of a JSON array of oracles.
fn push_json_oracles_body(out: &mut String, os: &Vec<OracleDefinition>)
    ensures
        final(out)@ == old(out)@ + json_oracles_body(
            Seq::new(os@.len(), |i: int| oracle_view(os@[i])),
        ),
{
    let ghost ov = Seq::new(os@.len(), |i: int| oracle_view(os@[i]));
    let mut i: usize = 0;
    proof {
        assert(ov.take(0) =~= Seq::<OracleV>::empty());
    }
    while i < os.len()
        invariant
            0 <= i <= os@.len(),
            ov == Seq::new(os@.len(), |k: int| oracle_view(os@[k])),
            ov.len() == os@.len(),
            out@ == old(out)@ + json_oracles_body(ov.take(i as int)),
        decreases os@.len() - i,
    {
        if i > 0 {
            out.push(',');
        }
        let ghost before = out@;
        push_json_oracle(out, &os[i]);
        proof {
            assert(out@ =~= before + json_oracle(ov[i as int]));
            assert(ov.take(i + 1).drop_last() =~= ov.take(i as int));
            assert(ov.take(i + 1).last() == ov[i as int]);
            assert(out@ =~= old(out)@ + json_oracles_body(ov.take(i + 1)));
        }
        i = i + 1;
    }
    proof {
        assert(ov.take(ov.len() as int) =~= ov);
    }
}

/// Append a JSON string list or null.
fn push_json_opt_strs(out: &mut String, o: &Option<Vec<String>>)
    ensures
        final(out)@ == old(out)@ + json_opt_strs(
            match *o {
                Option::Some(l) => Option::Some(Seq::new(l@.len(), |i: int| l@[i]@)),
                Option::None => Option::None,
            },
        ),
{
    match o {
        Some(l) => {
            out.push('[');
            push_json_strs_body(out, l);
            out.push(']');
            proof {
                assert(out@ =~= old(out)@ + json_opt_strs(
                    Option::Some(Seq::new(l@.len(), |i: int| l@[i]@)),
                ));
            }
        },
        None => out.append("null"),
    }
}

/// Append one JSON rule object.
#[verifier::rlimit(100)]
fn push_json_rule(out: &mut String, r: &RuleDefinition)
    ensures
        final(out)@ == old(out)@ + json_rule(rule_view(*r)),
{
    out.append("{\"rule_id\":");
    push_json_str(out, r.rule_id.as_str());
    out.append(",\"name\":");
    push_json_str(out, r.name.as_str());
    out.append(",\"trigger\":");
    push_json_str(out, r.trigger.as_str());
    out.append(",\"conditions\":{\"all_of\":");
    push_json_opt_strs(out, &r.conditions.all_of);
    out.append(",\"any_of\":");
    push_json_opt_strs(out, &r.conditions.any_of);
    out.append("},\"actions\":[");
    let actions = &r.actions;
    let ghost av = Seq::new(actions@.len(), |k: int| action_view(actions@[k]));
    let ghost mid = out@;
    let mut k: usize = 0;
    proof {
        assert(av.take(0) =~= Seq::<ActionV>::empty());
    }
    while k < actions.len()
        invariant
            0 <= k <= actions@.len(),
            av == Seq::new(actions@.len(), |m: int| action_view(actions@[m])),
            av.len() == actions@.len(),
            out@ == mid + json_actions_body(av.take(k as int)),
        decreases actions@.len() - k,
    {
        if k > 0 {
            out.push(',');
        }
        let ghost abefore = out@;
        out.append("{\"action\":");
        push_json_str(out, actions[k].action.as_str());
        out.append(",\"params\":[");
        push_json_entries_body(out, &actions[k].params);
        out.append("]}");
        proof {
            assert(out@ =~= abefore + json_action(av[k as int]));
            assert(av.take(k + 1).drop_last() =~= av.take(k as int));
            assert(av.take(k + 1).last() == av[k as int]);
            assert(out@ =~= mid + json_actions_body(av.take(k + 1)));
        }
        k = k + 1;
    }
    out.append("]}");
    proof {
        assert(av.take(av.len() as int) =~= av);
        assert(out@ =~= old(out)@ + json_rule(rule_view(*r)));
    }
}

/// Append the body of a JSON array of rules.
fn push_json_rules_body(out: &mut String, rs: &Vec<RuleDefinition>)
    ensures
        final(out)@ == old(out)@ + json_rules_body(
            Seq::new(rs@.len(), |i: int| rule_view(rs@[i])),
        ),
{
    let ghost rv = Seq::new(rs@.len(), |i: int| rule_view(rs@[i]));
    let mut i: usize = 0;
    proof {
        assert(rv.take(0) =~= Seq::<RuleV>::empty());
    }
    while i < rs.len()
        invariant
            0 <= i <= rs@.len(),
            rv == Seq::new(rs@.len(), |k: int| rule_view(rs@[k])),
            rv.len() == rs@.len(),
            out@ == old(out)@ + json_rules_body(rv.take(i as int)),
        decreases rs@.len() - i,
    {
        if i > 0 {
            out.push(',');
        }
        let ghost before = out@;
        push_json_rule(out, &rs[i]);
        proof {
            assert(out@ =~= before + json_rule(rv[i as int]));
            assert(rv.take(i + 1).drop_last() =~= rv.take(i as int));
            assert(rv.take(i + 1).last() == rv[i as int]);
            assert(out@ =~= old(out)@ + json_rules_body(rv.take(i + 1)));
        }
        i = i + 1;
    }
    proof {
        assert(rv.take(rv.len() as int) =~= rv);
    }
}

/// Render a contract as a JSON document.
#[verifier::rlimit(100)]
pub fn export_json(ucl: &UCLContract) -> (r: Result<String, Error>)
    ensures
        r is Ok,
        r matches Ok(s) ==> s@ == json_text(ucl_view(*ucl)),
{
    let mut out = String::new();
    out.append("{\"contract_id\":");
    push_json_str(&mut out, ucl.contract_id.as_str());
    out.append(",\"version\":");
    push_json_str(&mut out, ucl.version.as_str());
    out.append(",\"standard\":");
    push_json_str(&mut out, ucl.standard.as_str());
    out.append(",\"summary\":{\"title\":");
    push_json_str(&mut out, ucl.summary.title.as_str());
    out.append(",\"plain_english\":");
    push_json_str(&mut out, ucl.summary.plain_english.as_str());
    out.append(",\"what_it_does\":");
    push_json_str(&mut out, ucl.summary.what_it_does.as_str());
    out.append(",\"who_its_for\":");
    push_json_str(&mut out, ucl.summary.who_its_for.as_str());
    out.append(",\"when_it_executes\":");
    push_json_str(&mut out, ucl.summary.when_it_executes.as_str());
    out.append("},\"metadata\":{\"type\":");
    push_json_str(&mut out, ucl.metadata.contract_type.as_str());
    out.append(",\"category\":");
    push_json_str(&mut out, ucl.metadata.category.as_str());
    out.append(",\"parties\":[");
    push_json_parties_body(&mut out, &ucl.metadata.parties);
    out.append("],\"dates\":{\"effective\":");
    push_json_str(&mut out, ucl.metadata.dates.effective.as_str());
    out.append(",\"duration\":");
    push_json_str(&mut out, ucl.metadata.dates.duration.as_str());
    out.append(",\"renewal\":");
    push_json_str(&mut out, ucl.metadata.dates.renewal.as_str());
    out.append("},\"extra\":[");
    push_json_entries_body(&mut out, &ucl.metadata.extra);
    out.append("]},\"payment\":{\"structure\":");
    push_json_str(&mut out, ucl.payment.structure.as_str());
    out.append(",\"amount\":");
    let amt = ucl.payment.amount.render();
    out.append(amt.as_str());
    out.append(",\"currency\":");
    push_json_str(&mut out, ucl.payment.currency.as_str());
    out.append(",\"token\":");
    push_json_str(&mut out, ucl.payment.token.as_str());
    out.append(",\"blockchain\":");
    push_json_str(&mut out, ucl.payment.blockchain.as_str());
    out.append(",\"frequency\":");
    push_json_str(&mut out, ucl.payment.frequency.as_str());
    out.append("},\"conditions\":{\"required\":[");
    push_json_conds_body(&mut out, &ucl.conditions.required);
    out.append("],\"optional\":");
    match &ucl.conditions.optional {
        Some(l) => {
            out.push('[');
            push_json_conds_body(&mut out, l);
            out.push(']');
        },
        None => out.append("null"),
    }
    out.append("},\"oracles\":[");
    push_json_oracles_body(&mut out, &ucl.oracles);
    out.append("],\"rules\":[");
    push_json_rules_body(&mut out, &ucl.rules);
    out.append("]}");
    proof {
        assert(out@ =~= json_text(ucl_view(*ucl)));
    }
    Ok(out)
}

} // verus!
