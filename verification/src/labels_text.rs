//! The label text protocol: the whole label set is rendered as one
//! multi-line buffer (`"<code> <color> <name>"` per line) and a buffer is
//! reconciled back into the store: update labels in place by code, create
//! the new ones, remove the unmentioned ones with cascade, and re-resolve
//! every task's label reference.

use vstd::prelude::*;
use crate::label;
use crate::label::LabelModel;
use crate::label::TaskLabel;
use crate::label::labels_view;
use crate::store::TaskDB;
use crate::store::label_cleared;
use crate::text;

verus! {

/// One encoded label line: `"<code> <color-spec> <name>"`.
pub open spec fn spec_label_line(l: LabelModel) -> Seq<char> {
    l.code + seq![' '] + l.color + seq![' '] + l.name
}

/// The whole label set, one line per label, joined with newlines and with
/// no trailing blank line.
pub open spec fn spec_encode_labels(ls: Seq<LabelModel>) -> Seq<char>
    decreases ls.len(),
{
    if ls.len() == 0 {
        Seq::empty()
    } else if ls.len() == 1 {
        spec_label_line(ls[0])
    } else {
        spec_label_line(ls[0]) + seq!['\n'] + spec_encode_labels(ls.drop_first())
    }
}

/// Appending one more label appends one more line.
pub proof fn lemma_encode_labels_push(ls: Seq<LabelModel>, l: LabelModel)
    requires
        ls.len() > 0,
    ensures
        spec_encode_labels(ls.push(l)) == spec_encode_labels(ls) + seq!['\n'] + spec_label_line(l),
    decreases ls.len(),
{
    let p = ls.push(l);
    assert(p[0] == ls[0]);
    if ls.len() == 1 {
        assert(p.drop_first() =~= seq![l]);
        assert(spec_encode_labels(p.drop_first()) == spec_label_line(l));
    } else {
        assert(p.drop_first() =~= ls.drop_first().push(l));
        lemma_encode_labels_push(ls.drop_first(), l);
        assert(spec_encode_labels(p) =~= spec_encode_labels(ls) + seq!['\n'] + spec_label_line(l));
    }
}

/// Renders the label set into one edit buffer.
pub fn encode_labels(labels: &Vec<TaskLabel>) -> (r: String)
    ensures
        r@ == spec_encode_labels(labels_view(labels@)),
{
    let mut out = String::new();
    let n = labels.len();
    let mut i: usize = 0;
    proof {
        assert(labels_view(labels@.take(0)) =~= Seq::<LabelModel>::empty());
    }
    while i < n
        invariant
            0 <= i <= n,
            n == labels@.len(),
            out@ == spec_encode_labels(labels_view(labels@.take(i as int))),
        decreases n - i,
    {
        if i > 0 {
            out.append("\n");
        }
        out.append(labels[i].short_name());
        out.append(" ");
        out.append(labels[i].color_string());
        out.append(" ");
        out.append(labels[i].long_name());
        proof {
            reveal_strlit("\n");
            reveal_strlit(" ");
            assert("\n"@ =~= seq!['\n']);
            assert(" "@ =~= seq![' ']);
            let pre = labels_view(labels@.take(i as int));
            let cur = labels@[i as int]@;
            assert(labels_view(labels@.take(i + 1)) =~= pre.push(cur));
            if i == 0 {
                assert(pre.push(cur) =~= seq![cur]);
                assert(spec_encode_labels(seq![cur]) == spec_label_line(cur));
                assert(out@ =~= spec_label_line(cur));
            } else {
                lemma_encode_labels_push(pre, cur);
                assert(out@ =~= spec_encode_labels(pre) + seq!['\n'] + spec_label_line(cur));
            }
        }
        i = i + 1;
    }
    proof {
        assert(labels@.take(n as int) =~= labels@);
    }
    out
}

/// What one buffer line means: a line with at least three tokens is an
/// entry (code, color, remaining words joined by single spaces); any
/// other line is ignored.
pub open spec fn parse_line(line: Seq<char>) -> Option<LabelModel> {
    let toks = text::ws_tokens(line);
    if toks.len() >= 3 {
        Some(
            LabelModel {
                code: label::short_code(toks[0]),
                color: toks[1],
                name: text::join_spaces(toks.skip(2)),
            },
        )
    } else {
        Option::None
    }
}

/// The entries of a buffer's lines, in order, ignored lines dropped.
pub open spec fn parse_entries(lines: Seq<Seq<char>>) -> Seq<LabelModel>
    decreases lines.len(),
{
    if lines.len() == 0 {
        Seq::empty()
    } else {
        match parse_line(lines[0]) {
            Option::Some(e) => seq![e] + parse_entries(lines.drop_first()),
            Option::None => parse_entries(lines.drop_first()),
        }
    }
}

pub proof fn lemma_parse_entries_push(lines: Seq<Seq<char>>, l: Seq<char>)
    ensures
        parse_entries(lines.push(l)) == parse_entries(lines) + (match parse_line(l) {
            Option::Some(e) => seq![e],
            Option::None => Seq::<LabelModel>::empty(),
        }),
    decreases lines.len(),
{
    let p = lines.push(l);
    assert(parse_entries(Seq::<Seq<char>>::empty()) == Seq::<LabelModel>::empty());
    if lines.len() == 0 {
        assert(p[0] == l);
        assert(p.drop_first() =~= Seq::<Seq<char>>::empty());
        assert(parse_entries(p.drop_first()) == Seq::<LabelModel>::empty());
        match parse_line(l) {
            Option::Some(e) => {
                assert(parse_entries(p) == seq![e] + parse_entries(p.drop_first()));
                assert(parse_entries(p) =~= parse_entries(lines) + seq![e]);
            },
            Option::None => {
                assert(parse_entries(p) == parse_entries(p.drop_first()));
                assert(parse_entries(p) =~= parse_entries(lines));
            },
        }
    } else {
        assert(p[0] == lines[0]);
        assert(p.drop_first() =~= lines.drop_first().push(l));
        lemma_parse_entries_push(lines.drop_first(), l);
        match parse_line(lines[0]) {
            Option::Some(e0) => {
                assert(parse_entries(p) == seq![e0] + parse_entries(p.drop_first()));
                assert(parse_entries(lines) == seq![e0] + parse_entries(lines.drop_first()));
            },
            Option::None => {
                assert(parse_entries(p) == parse_entries(p.drop_first()));
                assert(parse_entries(lines) == parse_entries(lines.drop_first()));
            },
        }
        match parse_line(l) {
            Option::Some(e) => {
                assert(parse_entries(p) =~= parse_entries(lines) + seq![e]);
            },
            Option::None => {
                assert(parse_entries(p) =~= parse_entries(lines));
            },
        }
    }
}

/// The entries a whole buffer parses to, line by line.
pub open spec fn buffer_entries(s: Seq<char>) -> Seq<LabelModel> {
    parse_entries(text::split_char(s, '\n'))
}

/// The first position carrying code `c`, from `i` on.
pub open spec fn find_model_code(ls: Seq<LabelModel>, c: Seq<char>, i: int) -> Option<int>
    decreases ls.len() - i,
{
    if i < 0 || i >= ls.len() {
        Option::None
    } else if ls[i].code == c {
        Some(i)
    } else {
        find_model_code(ls, c, i + 1)
    }
}

proof fn lemma_find_model_from(ls: Seq<LabelModel>, c: Seq<char>, j: int, idx: int)
    requires
        0 <= j <= idx < ls.len(),
        ls[idx].code == c,
        forall|k: int| j <= k < idx ==> (#[trigger] ls[k]).code != c,
    ensures
        find_model_code(ls, c, j) == Some(idx),
    decreases idx - j,
{
    if j < idx {
        lemma_find_model_from(ls, c, j + 1, idx);
    }
}

/// The first match characterizes `find_model_code`.
pub proof fn lemma_find_model_first(ls: Seq<LabelModel>, c: Seq<char>, idx: int)
    requires
        0 <= idx < ls.len(),
        ls[idx].code == c,
        forall|k: int| 0 <= k < idx ==> (#[trigger] ls[k]).code != c,
    ensures
        find_model_code(ls, c, 0) == Some(idx),
{
    lemma_find_model_from(ls, c, 0, idx);
}

proof fn lemma_find_model_none_from(ls: Seq<LabelModel>, c: Seq<char>, j: int)
    requires
        0 <= j,
        forall|k: int| j <= k < ls.len() ==> (#[trigger] ls[k]).code != c,
    ensures
        find_model_code(ls, c, j) is None,
    decreases ls.len() - j,
{
    if j < ls.len() {
        lemma_find_model_none_from(ls, c, j + 1);
    }
}

/// No match anywhere means `find_model_code` finds nothing.
pub proof fn lemma_find_model_none(ls: Seq<LabelModel>, c: Seq<char>)
    requires
        forall|k: int| 0 <= k < ls.len() ==> (#[trigger] ls[k]).code != c,
    ensures
        find_model_code(ls, c, 0) is None,
{
    lemma_find_model_none_from(ls, c, 0);
}

/// One entry applied to the label list: an existing label with the code
/// is updated in place (keeping its position, so its identity); a new
/// code is appended.
pub open spec fn apply_entry(ls: Seq<LabelModel>, e: LabelModel) -> Seq<LabelModel> {
    match find_model_code(ls, e.code, 0) {
        Option::Some(i) => ls.update(i, e),
        Option::None => ls.push(e),
    }
}

/// All entries applied in order.
pub open spec fn apply_entries(ls: Seq<LabelModel>, es: Seq<LabelModel>) -> Seq<LabelModel>
    decreases es.len(),
{
    if es.len() == 0 {
        ls
    } else {
        apply_entries(apply_entry(ls, es[0]), es.drop_first())
    }
}

pub proof fn lemma_apply_entries_push(ls: Seq<LabelModel>, es: Seq<LabelModel>, e: LabelModel)
    ensures
        apply_entries(ls, es.push(e)) == apply_entry(apply_entries(ls, es), e),
    decreases es.len(),
{
    let p = es.push(e);
    if es.len() == 0 {
        assert(p[0] == e);
        assert(p.drop_first() =~= Seq::<LabelModel>::empty());
        assert(apply_entries(p, Seq::<LabelModel>::empty()) == p);
        assert(apply_entries(ls, p) == apply_entries(apply_entry(ls, e), p.drop_first()));
        assert(apply_entries(apply_entry(ls, e), p.drop_first()) == apply_entry(ls, e));
        assert(apply_entries(ls, es) == ls);
    } else {
        assert(p[0] == es[0]);
        assert(p.drop_first() =~= es.drop_first().push(e));
        lemma_apply_entries_push(apply_entry(ls, es[0]), es.drop_first(), e);
        assert(apply_entries(ls, p) == apply_entries(apply_entry(ls, es[0]), p.drop_first()));
        assert(apply_entries(ls, es) == apply_entries(apply_entry(ls, es[0]), es.drop_first()));
    }
}

/// Whether some entry lists this code.
pub open spec fn code_listed(es: Seq<LabelModel>, c: Seq<char>) -> bool {
    exists|k: int| 0 <= k < es.len() && (#[trigger] es[k]).code == c
}

/// The survival predicate of the removal step: a label stays only if its
/// code appeared among the parsed entries.
pub open spec fn kept_after(es: Seq<LabelModel>) -> spec_fn(LabelModel) -> bool {
    |l: LabelModel| code_listed(es, l.code)
}

/// The label list a reconciliation leaves behind: entries applied in
/// order, then every unmentioned label removed.
pub open spec fn reconciled_labels(ls: Seq<LabelModel>, es: Seq<LabelModel>) -> Seq<LabelModel> {
    apply_entries(ls, es).filter(kept_after(es))
}

/// Whether some label of the list carries this code.
pub open spec fn model_has_code(ls: Seq<LabelModel>, c: Seq<char>) -> bool {
    exists|k: int| 0 <= k < ls.len() && (#[trigger] ls[k]).code == c
}

/// Whether one of the collected code strings equals `c`.
fn contains_code(codes: &Vec<String>, c: &str) -> (r: bool)
    ensures
        r == exists|k: int|
            0 <= k < codes.deep_view().len() && codes.deep_view()[k] == c@,
{
    let n = codes.len();
    let mut i: usize = 0;
    while i < n
        invariant
            0 <= i <= n,
            n == codes@.len(),
            forall|k: int| 0 <= k < i ==> codes.deep_view()[k] != c@,
        decreases n - i,
    {
        if text::str_eq(codes[i].as_str(), c) {
            proof {
                assert(codes.deep_view()[i as int] == c@);
            }
            return true;
        }
        i = i + 1;
    }
    false
}

/// A label whose fields survive tokenization unchanged: the code is a
/// non-whitespace word followed by its space padding, the color is one
/// non-whitespace word, and the name is one or more words separated by
/// single spaces with no newline.
pub open spec fn round_trippable(l: LabelModel) -> bool {
    &&& l.code.len() == label::LABEL_LEN
    &&& text::token_len(l.code) > 0
    &&& forall|k: int|
        text::token_len(l.code) <= k < l.code.len() ==> #[trigger] l.code[k] == ' '
    &&& l.color.len() > 0
    &&& text::token_len(l.color) == l.color.len()
    &&& text::ws_tokens(l.name).len() >= 1
    &&& text::join_spaces(text::ws_tokens(l.name)) == l.name
    &&& forall|k: int| 0 <= k < l.name.len() ==> #[trigger] l.name[k] != '\n'
}

/// Decoding the encoding of a single clean label against a store holding
/// exactly that label changes nothing: the label keeps its position (its
/// identity) and its fields.
pub proof fn lemma_label_round_trip(l: LabelModel)
    requires
        round_trippable(l),
    ensures
        reconciled_labels(seq![l], buffer_entries(spec_encode_labels(seq![l]))) == seq![l],
{
    let line = spec_encode_labels(seq![l]);
    assert(line == l.code + seq![' '] + l.color + seq![' '] + l.name);
    let tl = text::token_len(l.code) as int;
    let head = l.code.take(tl);
    text::lemma_token_len_le(l.code);

    // The line holds no newline, so it splits as a single line.
    assert forall|k: int| 0 <= k < line.len() implies line[k] != '\n' by {
        if k < l.code.len() {
            assert(line[k] == l.code[k]);
            if k < tl {
                text::lemma_token_len_nonws(l.code, k);
            }
        } else if k == l.code.len() {
            assert(line[k] == ' ');
        } else if k < l.code.len() + 1 + l.color.len() {
            assert(line[k] == l.color[k - l.code.len() - 1]);
            text::lemma_token_len_nonws(l.color, k - l.code.len() - 1);
        } else if k == l.code.len() + 1 + l.color.len() {
            assert(line[k] == ' ');
        } else {
            assert(line[k] == l.name[k - l.code.len() - 2 - l.color.len()]);
        }
    }
    text::lemma_seg_len_run(line, '\n', line.len() as int);
    assert(text::split_char(line, '\n') == seq![line]);

    // The line tokenizes as code word, color word, then the name's words.
    let after_code = l.code.skip(tl) + seq![' '] + l.color + seq![' '] + l.name;
    assert(line =~= head + after_code);
    assert forall|k: int| 0 <= k < head.len() implies !text::is_ws_char(#[trigger] head[k]) by {
        text::lemma_token_len_nonws(l.code, k);
    }
    assert(text::is_ws_char(after_code[0]));
    text::lemma_ws_tokens_head(head, after_code);

    let pad = l.code.skip(tl) + seq![' '];
    let after_pad = l.color + seq![' '] + l.name;
    assert(after_code =~= pad + after_pad);
    assert forall|k: int| 0 <= k < pad.len() implies text::is_ws_char(#[trigger] pad[k]) by {
        if k < l.code.len() - tl {
            assert(pad[k] == l.code[tl + k]);
        }
    }
    text::lemma_ws_tokens_ws_prefix(pad, after_pad);

    let after_color = seq![' '] + l.name;
    assert(after_pad =~= l.color + after_color);
    assert forall|k: int| 0 <= k < l.color.len() implies !text::is_ws_char(
        #[trigger] l.color[k],
    ) by {
        text::lemma_token_len_nonws(l.color, k);
    }
    text::lemma_ws_tokens_head(l.color, after_color);
    text::lemma_ws_tokens_ws_prefix(seq![' '], l.name);
    assert(after_color =~= seq![' '] + l.name);

    let toks = text::ws_tokens(line);
    assert(toks =~= seq![head, l.color] + text::ws_tokens(l.name));
    assert(toks.len() >= 3);

    // The parsed entry is the label itself.
    let e = parse_line(line)->Some_0;
    assert(e.code =~= l.code) by {
        assert(toks[0] == head);
        assert forall|k: int| 0 <= k < label::LABEL_LEN implies label::short_code(head)[k]
            == l.code[k] by {
            if k < tl {
                assert(head[k] == l.code[k]);
            }
        }
        assert(label::short_code(head) =~= l.code);
    }
    assert(e.color == l.color) by {
        assert(toks[1] == l.color);
    }
    assert(e.name == l.name) by {
        assert(toks.skip(2) =~= text::ws_tokens(l.name));
    }
    assert(e == l);

    let entries = buffer_entries(line);
    assert(entries =~= seq![e]) by {
        assert(text::split_char(line, '\n') == seq![line]);
        assert(seq![line].drop_first() =~= Seq::<Seq<char>>::empty());
        assert(parse_entries(Seq::<Seq<char>>::empty()) == Seq::<LabelModel>::empty());
        assert(parse_entries(seq![line]) =~= seq![e] + Seq::<LabelModel>::empty());
    }

    // Applying the entry updates the label in place; the removal step
    // keeps it, since its code is listed.
    assert(find_model_code(seq![l], l.code, 0) == Some(0int));
    assert(apply_entry(seq![l], e) =~= seq![l]);
    assert(apply_entries(seq![l], entries) == apply_entries(apply_entry(seq![l], e), entries.drop_first()));
    assert(entries.drop_first() =~= Seq::<LabelModel>::empty());
    assert(apply_entries(seq![l], entries) =~= seq![l]);
    assert(code_listed(entries, l.code)) by {
        assert(entries[0].code == l.code);
    }
    reveal(Seq::filter);
    assert(seq![l].drop_last() =~= Seq::<LabelModel>::empty());
    assert(Seq::<LabelModel>::empty().filter(kept_after(entries)) =~= Seq::<LabelModel>::empty());
    assert(seq![l].filter(kept_after(entries)) =~= seq![l]);
    assert(reconciled_labels(seq![l], entries) =~= seq![l]);
}

/// Whether some label of the list carries exactly this code.
fn vec_has_code(labels: &Vec<TaskLabel>, c: &str) -> (r: bool)
    ensures
        r == exists|k: int|
            0 <= k < labels@.len() && (#[trigger] labels@[k]).spec_short_name() == c@,
{
    let n = labels.len();
    let mut i: usize = 0;
    while i < n
        invariant
            0 <= i <= n,
            n == labels@.len(),
            forall|k: int| 0 <= k < i ==> (#[trigger] labels@[k]).spec_short_name() != c@,
        decreases n - i,
    {
        if labels[i].has_code(c) {
            return true;
        }
        i = i + 1;
    }
    false
}

/// Reconciles one edit buffer against the store: each entry line updates
/// the label with its code in place or creates it; labels not mentioned
/// are removed; finally every task's label reference is re-resolved, so
/// no task is left pointing at a removed code.
pub fn reconcile_labels(db: &mut TaskDB, text: &str)
    requires
        old(db).wf(),
    ensures
        labels_view(final(db).labels@) == reconciled_labels(
            labels_view(old(db).labels@),
            buffer_entries(text@),
        ),
        final(db).tasks@.len() == old(db).tasks@.len(),
        forall|i: int|
            0 <= i < old(db).tasks@.len() ==> final(db).tasks@[i] == (
            match old(db).tasks@[i].spec_label_code() {
                Option::Some(c) => if model_has_code(
                    reconciled_labels(labels_view(old(db).labels@), buffer_entries(text@)),
                    c,
                ) {
                    old(db).tasks@[i]
                } else {
                    label_cleared(old(db).tasks@[i])
                },
                Option::None => old(db).tasks@[i],
            }),
        final(db).wf(),
        final(db).labels_resolved(),
{
    let lines = text::split_on(text, '\n');
    let ghost all_lines = text::split_char(text@, '\n');
    let ghost orig = labels_view(old(db).labels@);
    let ghost entries = parse_entries(all_lines);

    let mut codes_seen: Vec<String> = Vec::new();
    let nl = lines.len();
    let mut i: usize = 0;
    proof {
        assert(all_lines.take(0) =~= Seq::<Seq<char>>::empty());
        assert(parse_entries(all_lines.take(0)) == Seq::<LabelModel>::empty());
        assert(apply_entries(orig, Seq::<LabelModel>::empty()) == orig);
        assert(codes_seen.deep_view() =~= parse_entries(all_lines.take(0)).map_values(
            |e: LabelModel| e.code,
        ));
    }
    while i < nl
        invariant
            0 <= i <= nl,
            nl == lines@.len(),
            lines.deep_view() == all_lines,
            orig == labels_view(old(db).labels@),
            labels_view(db.labels@) == apply_entries(orig, parse_entries(all_lines.take(i as int))),
            codes_seen.deep_view() == parse_entries(all_lines.take(i as int)).map_values(
                |e: LabelModel| e.code,
            ),
            db.tasks@ == old(db).tasks@,
            forall|k: int| 0 <= k < db.labels@.len() ==> (#[trigger] db.labels@[k]).wf(),
            forall|k: int| 0 <= k < db.tasks@.len() ==> (#[trigger] db.tasks@[k]).wf(),
        decreases nl - i,
    {
        let ghost prev_entries = parse_entries(all_lines.take(i as int));
        let ghost prev_view = labels_view(db.labels@);
        proof {
            assert(lines.deep_view()[i as int] == lines@[i as int]@);
            assert(all_lines.take(i + 1) =~= all_lines.take(i as int).push(all_lines[i as int]));
            lemma_parse_entries_push(all_lines.take(i as int), all_lines[i as int]);
        }
        let toks = text::tokenize(lines[i].as_str());
        if toks.len() >= 3 {
            proof {
                assert(toks.deep_view()[0] == toks@[0]@);
                assert(toks.deep_view()[1] == toks@[1]@);
            }
            let code4 = TaskLabel::generate_short_name(toks[0].as_str());
            let name = text::join_from(&toks, 2);
            let ghost e = parse_line(all_lines[i as int])->Some_0;
            proof {
                assert(e.code == label::short_code(toks@[0]@));
                assert(e.color == toks@[1]@);
                assert(e.name == name@);
                assert(label::short_code(code4@) =~= code4@);
                assert(parse_entries(all_lines.take(i + 1)) =~= prev_entries.push(e));
                lemma_apply_entries_push(orig, prev_entries, e);
            }
            match db.label_by_tag(code4.as_str()) {
                Some(idx) => {
                    proof {
                        assert forall|k: int| 0 <= k < idx implies (#[trigger] prev_view[k]).code
                            != e.code by {
                            assert(prev_view[k] == db.labels@[k]@);
                        }
                        assert(prev_view[idx as int] == db.labels@[idx as int]@);
                        lemma_find_model_first(prev_view, e.code, idx as int);
                    }
                    let color_owned = toks[1].clone();
                    db.labels[idx].set_color(color_owned.as_str());
                    db.labels[idx].set_name(name.as_str());
                    proof {
                        assert(labels_view(db.labels@) =~= prev_view.update(idx as int, e));
                        assert(labels_view(db.labels@) == apply_entry(prev_view, e));
                    }
                },
                None => {
                    proof {
                        assert forall|k: int| 0 <= k < prev_view.len() implies (#[trigger]
                        prev_view[k]).code != e.code by {
                            assert(prev_view[k] == db.labels@[k]@);
                            assert(db.labels@[k].spec_short_name() != label::short_code(code4@));
                        }
                        lemma_find_model_none(prev_view, e.code);
                    }
                    let color_owned = toks[1].clone();
                    let l = TaskLabel::new(name.as_str(), code4.as_str(), color_owned.as_str());
                    proof {
                        assert(l@.code =~= code4@);
                    }
                    db.add_label(l);
                    proof {
                        assert(labels_view(db.labels@) =~= prev_view.push(e));
                        assert(labels_view(db.labels@) == apply_entry(prev_view, e));
                    }
                },
            }
            let ghost prev_codes = codes_seen.deep_view();
            codes_seen.push(code4);
            proof {
                assert(codes_seen.deep_view() =~= prev_codes.push(code4@));
                assert(parse_entries(all_lines.take(i + 1)).map_values(|e2: LabelModel| e2.code)
                    =~= prev_entries.map_values(|e2: LabelModel| e2.code).push(e.code));
                assert(codes_seen.deep_view() =~= parse_entries(all_lines.take(i + 1)).map_values(
                    |e2: LabelModel| e2.code,
                ));
            }
        } else {
            proof {
                assert(parse_line(all_lines[i as int]) is None);
                assert(parse_entries(all_lines.take(i + 1)) =~= prev_entries);
            }
        }
        i = i + 1;
    }
    proof {
        assert(all_lines.take(nl as int) =~= all_lines);
    }

    // Remove every label whose code no entry listed.
    let ghost mid = db.labels@;
    let ghost mpred = kept_after(entries);
    let mut kept: Vec<TaskLabel> = Vec::new();
    let nk = db.labels().len();
    let mut j: usize = 0;
    proof {
        reveal(Seq::filter);
        assert(labels_view(mid.take(0)) =~= Seq::<LabelModel>::empty());
    }
    while j < nk
        invariant
            0 <= j <= nk,
            nk == db.labels@.len(),
            db.labels@ == mid,
            db.tasks@ == old(db).tasks@,
            entries == parse_entries(all_lines),
            mpred == kept_after(entries),
            codes_seen.deep_view() == entries.map_values(|e: LabelModel| e.code),
            labels_view(kept@) == labels_view(mid.take(j as int)).filter(mpred),
            forall|k: int| 0 <= k < kept@.len() ==> (#[trigger] kept@[k]).wf(),
            forall|k: int| 0 <= k < db.labels@.len() ==> (#[trigger] db.labels@[k]).wf(),
            forall|k: int| 0 <= k < db.tasks@.len() ==> (#[trigger] db.tasks@[k]).wf(),
        decreases nk - j,
    {
        let listed = contains_code(&codes_seen, db.labels()[j].short_name());
        proof {
            reveal(Seq::filter);
            assert(labels_view(mid.take(j + 1)).drop_last() =~= labels_view(mid.take(j as int)));
            assert(labels_view(mid.take(j + 1)).last() == mid[j as int]@);
            let cm = entries.map_values(|e: LabelModel| e.code);
            assert forall|k: int| 0 <= k < cm.len() implies cm[k] == (#[trigger] entries[k]).code
                by {}
            if listed {
                let w = choose|k: int|
                    0 <= k < codes_seen.deep_view().len() && codes_seen.deep_view()[k]
                        == mid[j as int]@.code;
                assert(entries[w].code == mid[j as int]@.code);
            }
            if code_listed(entries, mid[j as int]@.code) {
                let w = choose|k: int|
                    0 <= k < entries.len() && (#[trigger] entries[k]).code == mid[j as int]@.code;
                assert(codes_seen.deep_view()[w] == mid[j as int]@.code);
            }
            assert(listed == code_listed(entries, mid[j as int]@.code));
            assert(mpred(mid[j as int]@) == listed);
        }
        if listed {
            kept.push(db.labels()[j].duplicate());
            proof {
                reveal(Seq::filter);
                assert(labels_view(kept@) =~= labels_view(mid.take(j + 1)).filter(mpred));
            }
        } else {
            proof {
                reveal(Seq::filter);
                assert(labels_view(kept@) =~= labels_view(mid.take(j + 1)).filter(mpred));
            }
        }
        j = j + 1;
    }
    proof {
        assert(mid.take(nk as int) =~= mid);
    }
    self_assign_labels(db, kept);

    // Re-resolve every task's label reference against the new label set.
    let ghost rec = labels_view(db.labels@);
    let ghost old_tasks = db.tasks@;
    let nt = db.tasks().len();
    let mut t: usize = 0;
    while t < nt
        invariant
            0 <= t <= nt,
            nt == db.tasks@.len(),
            db.tasks@.len() == old_tasks.len(),
            rec == labels_view(db.labels@),
            forall|k: int| 0 <= k < db.labels@.len() ==> (#[trigger] db.labels@[k]).wf(),
            forall|k: int| 0 <= k < old_tasks.len() ==> (#[trigger] old_tasks[k]).wf(),
            forall|k: int| t <= k < old_tasks.len() ==> db.tasks@[k] == old_tasks[k],
            forall|k: int|
                0 <= k < t ==> db.tasks@[k] == (match old_tasks[k].spec_label_code() {
                    Option::Some(c) => if model_has_code(rec, c) {
                        old_tasks[k]
                    } else {
                        label_cleared(old_tasks[k])
                    },
                    Option::None => old_tasks[k],
                }),
        decreases nt - t,
    {
        let resolved = match db.tasks()[t].label() {
            Some(c) => {
                let r = vec_has_code(db.labels(), c.as_str());
                proof {
                    if r {
                        let w = choose|k: int|
                            0 <= k < db.labels@.len() && db.labels@[k].spec_short_name() == c@;
                        assert(rec[w].code == c@);
                    }
                    if model_has_code(rec, c@) {
                        let w = choose|k: int| 0 <= k < rec.len() && rec[k].code == c@;
                        assert(db.labels@[w].spec_short_name() == c@);
                    }
                }
                r
            },
            None => true,
        };
        if !resolved {
            db.tasks[t].remove_label();
            proof {
                assert(db.tasks@[t as int] =~= label_cleared(old_tasks[t as int]));
            }
        }
        t = t + 1;
    }
    proof {
        assert forall|k: int| 0 <= k < db.tasks@.len() implies (#[trigger] db.tasks@[k]).wf() by {
            assert(old_tasks[k].wf());
        }
        assert forall|k: int|
            0 <= k < db.tasks@.len() implies match (#[trigger] db.tasks@[k]).spec_label_code() {
            Option::Some(code) => db.has_label_code(code),
            Option::None => true,
        } by {
            match db.tasks@[k].spec_label_code() {
                Option::Some(code) => {
                    assert(old_tasks[k].spec_label_code() == Some(code));
                    assert(model_has_code(rec, code));
                    let w = choose|w: int| 0 <= w < rec.len() && rec[w].code == code;
                    assert(db.labels@[w].spec_short_name() == code);
                },
                Option::None => {},
            }
        }
    }
}

/// Replaces the store's label list.
fn self_assign_labels(db: &mut TaskDB, labels: Vec<TaskLabel>)
    ensures
        final(db).labels == labels,
        final(db).tasks == old(db).tasks,
{
    db.labels = labels;
}

} // verus!
