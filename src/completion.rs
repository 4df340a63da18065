//! Completion of the built-in functions from the identifier being typed.
use vstd::prelude::*;
use vstd::utf8::encode_utf8;

verus! {

/// A completion offer: the label shown and the snippet inserted.
#[derive(Clone, Debug, PartialEq, Eq)]
pub struct CompletionItem {
    pub label: String,
    pub insert_text: String,
}

pub const NEWLINE: u8 = 10;
pub const LOWER_A: u8 = 97;
pub const LOWER_Z: u8 = 122;
pub const UPPER_A: u8 = 65;
pub const UPPER_Z: u8 = 90;

pub open spec fn is_prefix(p: Seq<u8>, s: Seq<u8>) -> bool {
    p.len() <= s.len() && s.subrange(0, p.len() as int) == p
}

/// The offer of builtin `name`, whose snippet ends in `args`, if `partial`
/// begins it.
pub open spec fn offer_of(name: Seq<char>, args: Seq<char>, partial: Seq<u8>) -> Seq<
    (Seq<char>, Seq<char>),
> {
    if is_prefix(partial, encode_utf8(name)) {
        seq![(name, name + args)]
    } else {
        seq![]
    }
}

/// The offers for a partial identifier: each builtin that it begins, in a
/// fixed order, with a snippet that places the cursor inside `Print`'s
/// parentheses.
pub open spec fn completions(partial: Seq<u8>) -> Seq<(Seq<char>, Seq<char>)> {
    offer_of("Print"@, "($1)"@, partial) + offer_of("ReadInteger"@, "()"@, partial) + offer_of(
        "ReadLine"@,
        "()"@,
        partial,
    )
}

pub open spec fn item_view(c: CompletionItem) -> (Seq<char>, Seq<char>) {
    (c.label@, c.insert_text@)
}

pub open spec fn items_view(s: Seq<CompletionItem>) -> Seq<(Seq<char>, Seq<char>)> {
    s.map_values(|c: CompletionItem| item_view(c))
}

pub open spec fn is_letter(b: u8) -> bool {
    (LOWER_A <= b <= LOWER_Z) || (UPPER_A <= b <= UPPER_Z)
}

/// The first newline at or after `s`.
pub open spec fn next_newline(b: Seq<u8>, s: int) -> Option<int>
    decreases b.len() - s,
{
    if s < 0 || s >= b.len() {
        None
    } else if b[s] == NEWLINE {
        Some(s)
    } else {
        next_newline(b, s + 1)
    }
}

/// Where line `line` (0-based) of `b` starts, if `b` has that many lines.
pub open spec fn line_start(b: Seq<u8>, line: nat) -> Option<int>
    decreases line,
{
    if line == 0 {
        Some(0)
    } else {
        match line_start(b, (line - 1) as nat) {
            Some(s) => match next_newline(b, s) {
                Some(j) => Some(j + 1),
                None => None,
            },
            None => None,
        }
    }
}

/// Where the line that starts at `s` ends.
pub open spec fn line_end(b: Seq<u8>, s: int) -> int {
    match next_newline(b, s) {
        Some(j) => j,
        None => b.len() as int,
    }
}

/// The byte offset of the cursor at `character` bytes into line `line`, if
/// that is within the line.
pub open spec fn cursor_index(b: Seq<u8>, line: nat, character: nat) -> Option<int> {
    match line_start(b, line) {
        Some(s) => if s + character <= line_end(b, s) {
            Some(s + character)
        } else {
            None
        },
        None => None,
    }
}

/// Where the run of letters that ends at `c` begins, not before `s`.
pub open spec fn run_start(b: Seq<u8>, s: int, c: int) -> int
    decreases c - s,
{
    if c > s && is_letter(b[c - 1]) {
        run_start(b, s, c - 1)
    } else {
        c
    }
}

/// The identifier being typed: the letters just before the cursor, if any.
pub open spec fn partial_at(b: Seq<u8>, line: nat, character: nat) -> Option<Seq<u8>> {
    match cursor_index(b, line, character) {
        Some(c) => {
            let s = line_start(b, line)->0;
            let r = run_start(b, s, c);
            if r < c {
                Some(b.subrange(r, c))
            } else {
                None
            }
        },
        None => None,
    }
}

proof fn lemma_next_newline_range(b: Seq<u8>, s: int)
    ensures
        next_newline(b, s) matches Some(j) ==> s <= j < b.len() && b[j] == NEWLINE,
    decreases b.len() - s,
{
    if 0 <= s < b.len() && b[s] != NEWLINE {
        lemma_next_newline_range(b, s + 1);
    }
}

/// The first newline of `b` at or after `s`.
fn find_newline(b: &[u8], s: usize) -> (r: Option<usize>)
    ensures
        r == (match next_newline(b@, s as int) {
            Some(j) => Some(j as usize),
            None => None::<usize>,
        }),
{
    let mut i = s;
    while i < b.len()
        invariant
            s <= i,
            next_newline(b@, s as int) == next_newline(b@, i as int),
        decreases b.len() - i,
    {
        if b[i] == NEWLINE {
            return Some(i);
        }
        i = i + 1;
    }
    None
}

/// Finds the identifier being typed at a position of a document.
pub fn partial_identifier(content: &str, line: u64, character: u64) -> (r: Option<Vec<u8>>)
    ensures
        r matches Some(v) ==> partial_at(encode_utf8(content@), line as nat, character as nat)
            == Some(v@),
        r is None ==> partial_at(encode_utf8(content@), line as nat, character as nat) is None,
{
    let b = content.as_bytes();
    let ghost bs = b@;
    let mut s: usize = 0;
    let mut k: u64 = 0;
    while k < line
        invariant
            k <= line,
            bs == b@,
            bs == encode_utf8(content@),
            line_start(bs, k as nat) == Some(s as int),
            s <= b.len(),
        decreases line - k,
    {
        match find_newline(b, s) {
            Some(j) => {
                proof {
                    lemma_next_newline_range(bs, s as int);
                }
                s = j + 1;
                k = k + 1;
            },
            None => {
                proof {
                    lemma_no_more_lines(bs, k as nat, line as nat);
                }
                return None;
            },
        }
    }
    let end = match find_newline(b, s) {
        Some(j) => j,
        None => b.len(),
    };
    proof {
        lemma_next_newline_range(bs, s as int);
    }
    if character as u128 > (end - s) as u128 {
        return None;
    }
    let c = s + character as usize;
    let mut r = c;
    while r > s && is_ascii_letter(b[r - 1])
        invariant
            s <= r <= c,
            c <= b.len(),
            bs == b@,
            run_start(bs, s as int, r as int) == run_start(bs, s as int, c as int),
        decreases r,
    {
        r = r - 1;
    }
    if r == c {
        return None;
    }
    let mut out: Vec<u8> = Vec::new();
    let mut i = r;
    while i < c
        invariant
            r <= i <= c,
            c <= b.len(),
            bs == b@,
            out@ == bs.subrange(r as int, i as int),
        decreases c - i,
    {
        out.push(b[i]);
        proof {
            assert(out@ =~= bs.subrange(r as int, i + 1));
        }
        i = i + 1;
    }
    Some(out)
}

proof fn lemma_no_more_lines(b: Seq<u8>, k: nat, m: nat)
    requires
        line_start(b, k) is Some,
        next_newline(b, line_start(b, k)->0) is None,
        m > k,
    ensures
        line_start(b, m) is None,
    decreases m,
{
    if m > k + 1 {
        lemma_no_more_lines(b, k, (m - 1) as nat);
    }
}

fn is_ascii_letter(c: u8) -> (r: bool)
    ensures
        r == is_letter(c),
{
    (LOWER_A <= c && c <= LOWER_Z) || (UPPER_A <= c && c <= UPPER_Z)
}

/// Adds the offer of builtin `name` when `partial` begins it.
fn offer(res: &mut Vec<CompletionItem>, name: &str, args: &str, partial: &[u8])
    ensures
        items_view(final(res)@) == items_view(old(res)@) + offer_of(name@, args@, partial@),
{
    let nb = name.as_bytes();
    let mut ok = partial.len() <= nb.len();
    if ok {
        let mut j: usize = 0;
        assert(nb@.subrange(0, 0) =~= partial@.subrange(0, 0));
        while j < partial.len()
            invariant
                j <= partial.len() <= nb.len(),
                nb@ == encode_utf8(name@),
                ok == (nb@.subrange(0, j as int) == partial@.subrange(0, j as int)),
            decreases partial.len() - j,
        {
            proof {
                assert(nb@.subrange(0, j + 1) =~= nb@.subrange(0, j as int).push(nb@[j as int]));
                assert(partial@.subrange(0, j + 1) =~= partial@.subrange(0, j as int).push(
                    partial@[j as int],
                ));
                if nb@.subrange(0, j + 1) == partial@.subrange(0, j + 1) {
                    assert(nb@.subrange(0, j as int) =~= nb@.subrange(0, j + 1).subrange(0, j as int));
                    let pj = partial@.subrange(0, j + 1);
                    assert(partial@.subrange(0, j as int) =~= pj.subrange(0, j as int));
                    assert(nb@.subrange(0, j + 1)[j as int] == partial@.subrange(0, j + 1)[j as int]);
                }
            }
            ok = ok && nb[j] == partial[j];
            j = j + 1;
        }
        proof {
            assert(partial@.subrange(0, partial.len() as int) =~= partial@);
        }
    }
    if ok {
        let item = CompletionItem {
            label: String::from_str(name),
            insert_text: String::from_str(name).concat(args),
        };
        res.push(item);
        assert(items_view(res@) =~= items_view(old(res)@) + seq![item_view(item)]);
    } else {
        assert(items_view(res@) =~= items_view(old(res)@) + seq![]);
    }
}

/// The builtins that a partial identifier begins, each with its snippet.
pub fn complete(partial: &[u8]) -> (r: Vec<CompletionItem>)
    ensures
        items_view(r@) == completions(partial@),
{
    let mut res: Vec<CompletionItem> = Vec::new();
    assert(items_view(res@) =~= seq![]);
    offer(&mut res, "Print", "($1)", partial);
    offer(&mut res, "ReadInteger", "()", partial);
    offer(&mut res, "ReadLine", "()", partial);
    assert(completions(partial@) =~= seq![] + offer_of("Print"@, "($1)"@, partial@) + offer_of(
        "ReadInteger"@,
        "()"@,
        partial@,
    ) + offer_of("ReadLine"@, "()"@, partial@));
    res
}

} // verus!
