//! The text format by which a selection of paths travels through the
//! system clipboard, and its errors.

use vstd::prelude::*;
use vstd::string::StringExecFns;
use crate::converters::backend::views;
use crate::text::{
    chars_of, eq_str, extend_chars, extend_str, first_index_of, has_char, lemma_first_index_bounds,
    lines, split_lines, string_of, strip_cr,
};

verus! {

/// The first line of every payload.
pub const PAYLOAD_HEADER: &'static str = "ROVEX_CLIPBOARD_V1";

/// What pasting does with the paths.
#[derive(Debug, Clone, Copy, PartialEq, Eq, Structural)]
pub enum ClipboardAction {
    Copy,
    Cut,
}

impl ClipboardAction {
    pub open spec fn word(self) -> Seq<char> {
        match self {
            ClipboardAction::Copy => "copy"@,
            ClipboardAction::Cut => "cut"@,
        }
    }

    pub open spec fn parse_of(value: Seq<char>) -> Option<ClipboardAction> {
        if value == "copy"@ {
            Some(ClipboardAction::Copy)
        } else if value == "cut"@ {
            Some(ClipboardAction::Cut)
        } else {
            None
        }
    }

    /// The word that names the action in a payload.
    pub fn as_str(self) -> (r: &'static str)
        ensures
            r@ == self.word(),
    {
        match self {
            ClipboardAction::Copy => "copy",
            ClipboardAction::Cut => "cut",
        }
    }

    /// The action a payload word names.
    pub fn parse(value: &str) -> (r: Option<ClipboardAction>)
        ensures
            r == ClipboardAction::parse_of(value@),
    {
        let v = chars_of(value);
        if eq_str(&v, "copy") {
            Some(ClipboardAction::Copy)
        } else if eq_str(&v, "cut") {
            Some(ClipboardAction::Cut)
        } else {
            None
        }
    }
}

/// Paths put on the clipboard and what pasting does with them.
#[derive(Debug, Clone, PartialEq, Eq)]
pub struct ClipboardPayload {
    pub action: ClipboardAction,
    pub paths: Vec<String>,
}

/// Why the clipboard could not be written or read.
#[derive(Debug, Clone, PartialEq, Eq)]
pub enum ClipboardError {
    EmptySelection,
    UnsupportedContents,
    InvalidPayload,
    Backend(String),
}

impl ClipboardError {
    pub open spec fn text_of(&self) -> Seq<char> {
        match self {
            ClipboardError::EmptySelection => "nenhum item selecionado para copiar"@,
            ClipboardError::UnsupportedContents => "o clipboard não contém uma seleção do Rovex"@,
            ClipboardError::InvalidPayload => "o conteúdo do clipboard está inválido"@,
            ClipboardError::Backend(m) => "não foi possível acessar o clipboard: "@ + m@,
        }
    }

    /// The message shown for this error.
    pub fn message(&self) -> (r: String)
        ensures
            r@ == self.text_of(),
    {
        match self {
            ClipboardError::EmptySelection => String::from_str("nenhum item selecionado para copiar"),
            ClipboardError::UnsupportedContents => String::from_str(
                "o clipboard não contém uma seleção do Rovex",
            ),
            ClipboardError::InvalidPayload => String::from_str("o conteúdo do clipboard está inválido"),
            ClipboardError::Backend(m) => {
                let mut out: Vec<char> = Vec::new();
                extend_str(&mut out, "não foi possível acessar o clipboard: ");
                extend_str(&mut out, m.as_str());
                string_of(&out)
            },
        }
    }
}

/// A path that can travel in a payload: not empty, on one line.
pub open spec fn encodable(p: Seq<char>) -> bool {
    p.len() > 0 && !has_char(p, '\n')
}

/// Each path followed by a line break.
pub open spec fn path_lines(ps: Seq<Seq<char>>) -> Seq<char>
    decreases ps.len(),
{
    if ps.len() == 0 {
        Seq::empty()
    } else {
        path_lines(ps.drop_last()) + ps.last() + seq!['\n']
    }
}

/// The payload text: the header, the action, then one path per line.
pub open spec fn encoding_of(action: ClipboardAction, ps: Seq<Seq<char>>) -> Result<
    Seq<char>,
    ClipboardError,
> {
    if ps.len() == 0 {
        Err(ClipboardError::EmptySelection)
    } else if exists|i: int| 0 <= i < ps.len() && !encodable(#[trigger] ps[i]) {
        Err(ClipboardError::InvalidPayload)
    } else {
        Ok(PAYLOAD_HEADER@ + seq!['\n'] + action.word() + seq!['\n'] + path_lines(ps))
    }
}

/// Writes a payload as clipboard text.
pub fn encode_payload(payload: &ClipboardPayload) -> (r: Result<String, ClipboardError>)
    ensures
        match encoding_of(payload.action, views(payload.paths@)) {
            Ok(t) => r matches Ok(s) && s@ == t,
            Err(e) => r == Err::<String, ClipboardError>(e),
        },
{
    if payload.paths.len() == 0 {
        return Err(ClipboardError::EmptySelection);
    }
    let mut out: Vec<char> = Vec::new();
    extend_str(&mut out, PAYLOAD_HEADER);
    out.push('\n');
    extend_str(&mut out, payload.action.as_str());
    out.push('\n');
    let ghost head = out@;
    let mut i: usize = 0;
    while i < payload.paths.len()
        invariant
            i <= payload.paths@.len(),
            out@ == head + path_lines(views(payload.paths@).take(i as int)),
            forall|k: int| 0 <= k < i ==> encodable(#[trigger] views(payload.paths@)[k]),
        decreases payload.paths@.len() - i,
    {
        let p = chars_of(payload.paths[i].as_str());
        if p.len() == 0 || crate::text::contains_char(&p, '\n') {
            assert(!encodable(views(payload.paths@)[i as int]));
            return Err(ClipboardError::InvalidPayload);
        }
        extend_chars(&mut out, &p);
        out.push('\n');
        proof {
            let t1 = views(payload.paths@).take(i + 1);
            assert(t1.drop_last() =~= views(payload.paths@).take(i as int));
            assert(t1.last() == p@);
            assert(out@ =~= head + path_lines(t1));
        }
        i = i + 1;
    }
    assert(views(payload.paths@).take(payload.paths@.len() as int) =~= views(payload.paths@));
    Ok(string_of(&out))
}

/// The non-empty lines of `ls`, in order.
pub open spec fn nonempty_lines(ls: Seq<Seq<char>>) -> Seq<Seq<char>>
    decreases ls.len(),
{
    if ls.len() == 0 {
        Seq::empty()
    } else if ls.last().len() > 0 {
        nonempty_lines(ls.drop_last()).push(ls.last())
    } else {
        nonempty_lines(ls.drop_last())
    }
}

/// What a clipboard text holds: the header line, an action line, then
/// the paths, one per non-empty line.
pub open spec fn decoding_of(text: Seq<char>) -> Result<
    (ClipboardAction, Seq<Seq<char>>),
    ClipboardError,
> {
    let ls = lines(text);
    if ls.len() == 0 || ls[0] != PAYLOAD_HEADER@ {
        Err(ClipboardError::UnsupportedContents)
    } else if ls.len() < 2 || ClipboardAction::parse_of(ls[1]) is None {
        Err(ClipboardError::InvalidPayload)
    } else if nonempty_lines(ls.skip(2)).len() == 0 {
        Err(ClipboardError::InvalidPayload)
    } else {
        Ok((ClipboardAction::parse_of(ls[1])->0, nonempty_lines(ls.skip(2))))
    }
}

/// Reads clipboard text back into a payload.
pub fn decode_payload(contents: &str) -> (r: Result<ClipboardPayload, ClipboardError>)
    ensures
        match decoding_of(contents@) {
            Ok((a, ps)) => r matches Ok(p) && p.action == a && views(p.paths@) == ps,
            Err(e) => r == Err::<ClipboardPayload, ClipboardError>(e),
        },
{
    let c = chars_of(contents);
    let ls = split_lines(&c);
    let ghost all = lines(c@);
    if ls.len() == 0 || !eq_str(&ls[0], PAYLOAD_HEADER) {
        return Err(ClipboardError::UnsupportedContents);
    }
    if ls.len() < 2 {
        return Err(ClipboardError::InvalidPayload);
    }
    let word = string_of(&ls[1]);
    let action = match ClipboardAction::parse(word.as_str()) {
        Some(a) => a,
        None => {
            return Err(ClipboardError::InvalidPayload);
        },
    };
    let mut paths: Vec<String> = Vec::new();
    let mut i: usize = 2;
    while i < ls.len()
        invariant
            2 <= i <= ls@.len(),
            ls@.len() == all.len(),
            forall|k: int| 0 <= k < ls@.len() ==> #[trigger] ls@[k]@ == all[k],
            views(paths@) == nonempty_lines(all.skip(2).take(i - 2)),
        decreases ls@.len() - i,
    {
        let ghost before = paths@;
        proof {
            let t1 = all.skip(2).take(i - 1);
            assert(t1.drop_last() =~= all.skip(2).take(i - 2));
            assert(t1.last() == all[i as int]);
        }
        if ls[i].len() > 0 {
            paths.push(string_of(&ls[i]));
            assert(views(paths@) =~= views(before).push(all[i as int]));
        }
        i = i + 1;
    }
    assert(all.skip(2).take(ls@.len() - 2) =~= all.skip(2));
    if paths.len() == 0 {
        return Err(ClipboardError::InvalidPayload);
    }
    Ok(ClipboardPayload { action, paths })
}

/// `str::lines` splits at the first line break of a text.
pub proof fn lemma_lines_cons(x: Seq<char>, rest: Seq<char>)
    requires
        !has_char(x, '\n'),
    ensures
        lines(x + seq!['\n'] + rest) == seq![strip_cr(x)] + lines(rest),
{
    let s = x + seq!['\n'] + rest;
    lemma_first_index_bounds(s, '\n');
    let i = first_index_of(s, '\n');
    if i < x.len() {
        assert(s[i] == x[i]);
    }
    if i > x.len() {
        assert(s[x.len() as int] == '\n');
    }
    assert(i == x.len());
    assert(s.subrange(0, i) =~= x);
    assert(s.subrange(i + 1, s.len() as int) =~= rest);
}

/// The lines of `path_lines(ps)` are the paths, each without a final `\r`.
pub proof fn lemma_lines_of_paths(ps: Seq<Seq<char>>)
    requires
        forall|i: int| 0 <= i < ps.len() ==> encodable(#[trigger] ps[i]),
    ensures
        lines(path_lines(ps)) == ps.map_values(|p: Seq<char>| strip_cr(p)),
    decreases ps.len(),
{
    if ps.len() > 0 {
        let first = ps[0];
        let tail = ps.drop_first();
        assert forall|i: int| 0 <= i < tail.len() implies encodable(#[trigger] tail[i]) by {
            assert(tail[i] == ps[i + 1]);
        }
        lemma_lines_of_paths(tail);
        lemma_path_lines_front(ps);
        assert(encodable(ps[0]));
        lemma_lines_cons(first, path_lines(tail));
        assert(ps.map_values(|p: Seq<char>| strip_cr(p)) =~= seq![strip_cr(first)]
            + tail.map_values(|p: Seq<char>| strip_cr(p)));
    } else {
        assert(path_lines(ps) =~= Seq::<char>::empty());
    }
}

/// `path_lines` unfolds from the front too.
pub proof fn lemma_path_lines_front(ps: Seq<Seq<char>>)
    requires
        ps.len() > 0,
    ensures
        path_lines(ps) == ps[0] + seq!['\n'] + path_lines(ps.drop_first()),
    decreases ps.len(),
{
    if ps.len() == 1 {
        assert(ps.drop_last() =~= Seq::<Seq<char>>::empty());
        assert(ps.drop_first() =~= Seq::<Seq<char>>::empty());
        assert(path_lines(ps.drop_first()) =~= Seq::<char>::empty());
        assert(path_lines(ps) =~= ps[0] + seq!['\n']);
    } else {
        lemma_path_lines_front(ps.drop_last());
        assert(ps.drop_last().drop_first() =~= ps.drop_first().drop_last());
        assert(ps.drop_first().last() == ps.last());
        assert(ps.drop_last()[0] == ps[0]);
    }
}

/// Reading back what was written gives the same payload, for every
/// payload that can be written and whose paths do not end in `\r`
/// (which the reading of lines drops).
pub proof fn law_clipboard_round_trip(action: ClipboardAction, ps: Seq<Seq<char>>)
    requires
        encoding_of(action, ps) is Ok,
        forall|i: int| 0 <= i < ps.len() ==> (#[trigger] ps[i]).last() != '\r',
    ensures
        decoding_of(encoding_of(action, ps)->Ok_0) == Ok::<
            (ClipboardAction, Seq<Seq<char>>),
            ClipboardError,
        >((action, ps)),
{
    let text = encoding_of(action, ps)->Ok_0;
    assert(ps.len() > 0);
    assert(forall|i: int| 0 <= i < ps.len() ==> encodable(#[trigger] ps[i]));
    reveal_strlit("ROVEX_CLIPBOARD_V1");
    reveal_strlit("copy");
    reveal_strlit("cut");
    let header = PAYLOAD_HEADER@;
    assert(!has_char(header, '\n'));
    assert(!has_char(action.word(), '\n'));
    let body = path_lines(ps);
    assert(text =~= header + seq!['\n'] + (action.word() + seq!['\n'] + body));
    lemma_lines_cons(header, action.word() + seq!['\n'] + body);
    lemma_lines_cons(action.word(), body);
    lemma_lines_of_paths(ps);
    let ls = lines(text);
    let stripped = ps.map_values(|p: Seq<char>| strip_cr(p));
    assert(stripped =~= ps) by {
        assert forall|i: int| 0 <= i < ps.len() implies stripped[i] == ps[i] by {
            assert(ps[i].last() != '\r');
        }
    }
    assert(strip_cr(header) =~= header);
    assert(strip_cr(action.word()) =~= action.word());
    assert(ls =~= seq![header, action.word()] + ps);
    assert(ls.skip(2) =~= ps);
    lemma_nonempty_lines_all(ps);
}

/// Keeping the non-empty lines of lines that are all non-empty keeps them all.
pub proof fn lemma_nonempty_lines_all(ls: Seq<Seq<char>>)
    requires
        forall|i: int| 0 <= i < ls.len() ==> (#[trigger] ls[i]).len() > 0,
    ensures
        nonempty_lines(ls) == ls,
    decreases ls.len(),
{
    if ls.len() > 0 {
        lemma_nonempty_lines_all(ls.drop_last());
        assert(ls.drop_last().push(ls.last()) =~= ls);
    }
}

} // verus!
