//! The generic parsed configuration value.
//!
//! A configuration file is parsed (by an outside library) into a tree of
//! nested maps, arrays and scalars. This module holds the crate's own
//! form of that tree, `HclValue`, its mathematical model `ValueModel`,
//! lookup by key, and the textual rendering used when a nested value is
//! flattened into a string.

use vstd::prelude::*;

use crate::chars;

verus! {

/// A parsed configuration value: nested maps, arrays and scalars.
/// Numbers are kept in their textual form; object entries keep the
/// order in which the parser produced them.
#[derive(Debug, PartialEq)]
pub enum HclValue {
    Null,
    Bool(bool),
    Num(String),
    Text(String),
    Arr(Vec<HclValue>),
    Obj(Vec<(String, HclValue)>),
}

/// The mathematical model of an `HclValue`.
pub enum ValueModel {
    Null,
    Bool(bool),
    Num(Seq<char>),
    Text(Seq<char>),
    Arr(Seq<ValueModel>),
    Obj(Seq<(Seq<char>, ValueModel)>),
}

impl HclValue {
    pub open spec fn model(self) -> ValueModel
        decreases self, 1int, 0int,
    {
        match self {
            HclValue::Null => ValueModel::Null,
            HclValue::Bool(b) => ValueModel::Bool(b),
            HclValue::Num(s) => ValueModel::Num(s@),
            HclValue::Text(s) => ValueModel::Text(s@),
            HclValue::Arr(items) => ValueModel::Arr(models_upto(items, items.len() as int)),
            HclValue::Obj(entries) => ValueModel::Obj(
                entry_models_upto(entries, entries.len() as int),
            ),
        }
    }
}

/// Models of the first `i` elements.
pub open spec fn models_upto(items: Vec<HclValue>, i: int) -> Seq<ValueModel>
    decreases items, 0int, i,
{
    if i <= 0 || i > items.len() {
        Seq::empty()
    } else {
        models_upto(items, i - 1).push(items[i - 1].model())
    }
}

/// Models of the first `i` entries, with their keys.
pub open spec fn entry_models_upto(entries: Vec<(String, HclValue)>, i: int) -> Seq<
    (Seq<char>, ValueModel),
>
    decreases entries, 0int, i,
{
    if i <= 0 || i > entries.len() {
        Seq::empty()
    } else {
        entry_models_upto(entries, i - 1).push(
            (entries[i - 1].0@, entries[i - 1].1.model()),
        )
    }
}

pub proof fn lemma_models_upto(items: Vec<HclValue>, i: int)
    requires
        0 <= i <= items.len(),
    ensures
        models_upto(items, i).len() == i,
        forall|k: int| 0 <= k < i ==> #[trigger] models_upto(items, i)[k] == items[k].model(),
    decreases i,
{
    if i > 0 {
        lemma_models_upto(items, i - 1);
    }
}

pub proof fn lemma_entry_models_upto(entries: Vec<(String, HclValue)>, i: int)
    requires
        0 <= i <= entries.len(),
    ensures
        entry_models_upto(entries, i).len() == i,
        forall|k: int|
            0 <= k < i ==> #[trigger] entry_models_upto(entries, i)[k] == (entries[k].0@,
            entries[k].1.model()),
    decreases i,
{
    if i > 0 {
        lemma_entry_models_upto(entries, i - 1);
    }
}

impl View for HclValue {
    type V = ValueModel;

    open spec fn view(&self) -> ValueModel {
        self.model()
    }
}

// --- lookup ---

/// The value of the first entry named `key`, if any.
pub open spec fn obj_lookup(entries: Seq<(Seq<char>, ValueModel)>, key: Seq<char>) -> Option<
    ValueModel,
>
    decreases entries.len(),
{
    if entries.len() == 0 {
        None
    } else if entries[0].0 == key {
        Some(entries[0].1)
    } else {
        obj_lookup(entries.skip(1), key)
    }
}

/// Key lookup on a value: yields something only on an object.
pub open spec fn value_get(v: ValueModel, key: Seq<char>) -> Option<ValueModel> {
    match v {
        ValueModel::Obj(entries) => obj_lookup(entries, key),
        _ => None,
    }
}

pub fn hcl_get<'a>(v: &'a HclValue, key: &str) -> (r: Option<&'a HclValue>)
    ensures
        match r {
            Some(x) => value_get(v@, key@) == Some(x@),
            None => value_get(v@, key@) is None,
        },
{
    let kc = chars::to_chars(key);
    match v {
        HclValue::Obj(entries) => {
            let ghost es = v@->Obj_0;
            proof {
                lemma_entry_models_upto(*entries, entries@.len() as int);
                assert(es.skip(0) =~= es);
            }
            let mut i: usize = 0;
            while i < entries.len()
                invariant
                    i <= entries@.len(),
                    es == v@->Obj_0,
                    v@ is Obj,
                    es.len() == entries@.len(),
                    forall|k: int|
                        0 <= k < es.len() ==> #[trigger] es[k] == (entries@[k].0@,
                        entries@[k].1@),
                    kc@ == key@,
                    obj_lookup(es, key@) == obj_lookup(es.skip(i as int), key@),
                decreases entries@.len() - i,
            {
                let name = chars::to_chars(entries[i].0.as_str());
                if chars::chars_eq(&name, &kc) {
                    proof {
                        assert(es.skip(i as int)[0] == es[i as int]);
                        assert(obj_lookup(es.skip(i as int), key@) == Some(es[i as int].1));
                    }
                    return Some(&entries[i].1);
                }
                proof {
                    assert(es.skip(i as int)[0] == es[i as int]);
                    assert(es.skip(i as int).skip(1) =~= es.skip(i + 1));
                }
                i = i + 1;
            }
            proof {
                assert(es.skip(i as int).len() == 0);
            }
            None
        },
        _ => None,
    }
}

// --- rendering ---

/// How one character appears inside a rendered quoted string.
pub open spec fn escape_ch(c: char) -> Seq<char> {
    if c == '"' {
        seq!['\\', '"']
    } else if c == '\\' {
        seq!['\\', '\\']
    } else if c == '\n' {
        seq!['\\', 'n']
    } else if c == '\r' {
        seq!['\\', 'r']
    } else if c == '\t' {
        seq!['\\', 't']
    } else {
        seq![c]
    }
}

pub open spec fn escape_upto(s: Seq<char>, i: int) -> Seq<char>
    decreases i,
{
    if i <= 0 {
        Seq::empty()
    } else {
        escape_upto(s, i - 1) + escape_ch(s[i - 1])
    }
}

pub open spec fn escaped(s: Seq<char>) -> Seq<char> {
    escape_upto(s, s.len() as int)
}

/// A string as it is rendered: quoted, with the escapes of `escape_ch`.
pub open spec fn quoted(s: Seq<char>) -> Seq<char> {
    seq!['"'] + escaped(s) + seq!['"']
}

/// The textual rendering of a value, mirroring compact JSON output.
pub open spec fn render(v: ValueModel) -> Seq<char>
    decreases v, 0int,
{
    match v {
        ValueModel::Null => "null"@,
        ValueModel::Bool(b) => if b {
            "true"@
        } else {
            "false"@
        },
        ValueModel::Num(s) => s,
        ValueModel::Text(s) => quoted(s),
        ValueModel::Arr(items) => seq!['['] + render_items(items, items.len() as int) + seq![']'],
        ValueModel::Obj(entries) => seq!['{'] + render_entries(entries, entries.len() as int)
            + seq!['}'],
    }
}

/// The first `i` items, rendered and joined with commas.
pub open spec fn render_items(items: Seq<ValueModel>, i: int) -> Seq<char>
    decreases items, i,
{
    if i <= 0 || i > items.len() {
        Seq::empty()
    } else if i == 1 {
        render(items[0])
    } else {
        render_items(items, i - 1) + seq![','] + render(items[i - 1])
    }
}

/// The first `i` entries, rendered as `"key":value` and joined with commas.
pub open spec fn render_entries(entries: Seq<(Seq<char>, ValueModel)>, i: int) -> Seq<char>
    decreases entries, i,
{
    if i <= 0 || i > entries.len() {
        Seq::empty()
    } else if i == 1 {
        quoted(entries[0].0) + seq![':'] + render(entries[0].1)
    } else {
        render_entries(entries, i - 1) + seq![','] + (quoted(entries[i - 1].0) + seq![':']
            + render(entries[i - 1].1))
    }
}

fn escape_chars(s: &Vec<char>) -> (r: Vec<char>)
    ensures
        r@ == escaped(s@),
{
    let mut r: Vec<char> = Vec::new();
    let mut i: usize = 0;
    while i < s.len()
        invariant
            i <= s@.len(),
            r@ == escape_upto(s@, i as int),
        decreases s@.len() - i,
    {
        let c = s[i];
        if c == '"' {
            r.push('\\');
            r.push('"');
        } else if c == '\\' {
            r.push('\\');
            r.push('\\');
        } else if c == '\n' {
            r.push('\\');
            r.push('n');
        } else if c == '\r' {
            r.push('\\');
            r.push('r');
        } else if c == '\t' {
            r.push('\\');
            r.push('t');
        } else {
            r.push(c);
        }
        proof {
            assert(escape_upto(s@, i + 1) =~= escape_upto(s@, i as int) + escape_ch(
                s@[i as int],
            ));
            assert(r@ =~= escape_upto(s@, i as int) + escape_ch(s@[i as int]));
        }
        i = i + 1;
    }
    r
}

fn quote_chars(s: &Vec<char>) -> (r: Vec<char>)
    ensures
        r@ == quoted(s@),
{
    let mut r: Vec<char> = Vec::new();
    r.push('"');
    let esc = escape_chars(s);
    let mut i: usize = 0;
    while i < esc.len()
        invariant
            i <= esc@.len(),
            r@ == seq!['"'] + esc@.subrange(0, i as int),
        decreases esc@.len() - i,
    {
        proof {
            assert((seq!['"'] + esc@.subrange(0, i + 1)) =~= (seq!['"'] + esc@.subrange(
                0,
                i as int,
            )).push(esc@[i as int]));
        }
        r.push(esc[i]);
        i = i + 1;
    }
    r.push('"');
    proof {
        assert(esc@.subrange(0, esc@.len() as int) =~= esc@);
        assert((seq!['"'] + esc@).push('"') =~= quoted(s@));
    }
    r
}

fn append_chars(out: &mut Vec<char>, piece: &Vec<char>)
    ensures
        final(out)@ == old(out)@ + piece@,
{
    let mut i: usize = 0;
    while i < piece.len()
        invariant
            i <= piece@.len(),
            out@ == old(out)@ + piece@.subrange(0, i as int),
        decreases piece@.len() - i,
    {
        proof {
            assert((old(out)@ + piece@.subrange(0, i + 1)) =~= (old(out)@ + piece@.subrange(
                0,
                i as int,
            )).push(piece@[i as int]));
        }
        out.push(piece[i]);
        i = i + 1;
    }
    proof {
        assert(piece@.subrange(0, piece@.len() as int) =~= piece@);
    }
}

/// The rendered text of a value.
#[verifier::loop_isolation(false)]
pub fn render_value(v: &HclValue) -> (r: Vec<char>)
    ensures
        r@ == render(v@),
    decreases v,
{
    match v {
        HclValue::Null => chars::to_chars("null"),
        HclValue::Bool(b) => {
            if *b {
                chars::to_chars("true")
            } else {
                chars::to_chars("false")
            }
        },
        HclValue::Num(s) => chars::to_chars(s.as_str()),
        HclValue::Text(s) => {
            let sc = chars::to_chars(s.as_str());
            quote_chars(&sc)
        },
        HclValue::Arr(items) => {
            let ghost ms = v@->Arr_0;
            proof {
                lemma_models_upto(*items, items@.len() as int);
            }
            let mut out: Vec<char> = Vec::new();
            out.push('[');
            let mut j: usize = 0;
            while j < items.len()
                invariant
                    j <= items@.len(),
                    v@ is Arr,
                    ms == v@->Arr_0,
                    ms.len() == items@.len(),
                    forall|k: int| 0 <= k < ms.len() ==> #[trigger] ms[k] == items@[k]@,
                    out@ == seq!['['] + render_items(ms, j as int),
                decreases items@.len() - j,
            {
                if j > 0 {
                    out.push(',');
                }
                proof {
                    assert(decreases_to!(*v => *items));
                    assert(decreases_to!(*items => items@[j as int]));
                }
                let piece = render_value(&items[j]);
                append_chars(&mut out, &piece);
                proof {
                    if j == 0 {
                        assert(out@ =~= seq!['['] + render_items(ms, 1));
                    } else {
                        assert(render_items(ms, j + 1) == render_items(ms, j as int) + seq![',']
                            + render(ms[j as int]));
                        assert(out@ =~= seq!['['] + render_items(ms, j + 1));
                    }
                }
                j = j + 1;
            }
            out.push(']');
            proof {
                assert(out@ =~= seq!['['] + render_items(ms, ms.len() as int) + seq![']']);
            }
            out
        },
        HclValue::Obj(entries) => {
            let ghost ms = v@->Obj_0;
            proof {
                lemma_entry_models_upto(*entries, entries@.len() as int);
            }
            let mut out: Vec<char> = Vec::new();
            out.push('{');
            let mut j: usize = 0;
            while j < entries.len()
                invariant
                    j <= entries@.len(),
                    v@ is Obj,
                    ms == v@->Obj_0,
                    ms.len() == entries@.len(),
                    forall|k: int|
                        0 <= k < ms.len() ==> #[trigger] ms[k] == (entries@[k].0@,
                        entries@[k].1@),
                    out@ == seq!['{'] + render_entries(ms, j as int),
                decreases entries@.len() - j,
            {
                if j > 0 {
                    out.push(',');
                }
                let kc = chars::to_chars(entries[j].0.as_str());
                let qk = quote_chars(&kc);
                append_chars(&mut out, &qk);
                out.push(':');
                proof {
                    assert(decreases_to!(*v => *entries));
                    assert(decreases_to!(*entries => entries@[j as int]));
                    assert(decreases_to!(entries@[j as int] => entries@[j as int].1));
                }
                let piece = render_value(&entries[j].1);
                append_chars(&mut out, &piece);
                proof {
                    let entry = quoted(ms[j as int].0) + seq![':'] + render(ms[j as int].1);
                    if j == 0 {
                        assert(out@ =~= seq!['{'] + render_entries(ms, 1));
                    } else {
                        assert(render_entries(ms, j + 1) == render_entries(ms, j as int)
                            + seq![','] + entry);
                        assert(out@ =~= seq!['{'] + render_entries(ms, j + 1));
                    }
                }
                j = j + 1;
            }
            out.push('}');
            proof {
                assert(out@ =~= seq!['{'] + render_entries(ms, ms.len() as int) + seq!['}']);
            }
            out
        },
    }
}

} // verus!
