use vstd::prelude::*;

use crate::keys::flat_keys;
use crate::keys::account_keys;
use crate::text::chars_to_string;
use crate::text::push_chars_of;
use crate::text::to_chars;
use crate::types::Operation;

verus! {

/// The hexadecimal digit for a value below sixteen.
pub open spec fn hex_digit(d: int) -> char {
    if d == 0 {
        '0'
    } else if d == 1 {
        '1'
    } else if d == 2 {
        '2'
    } else if d == 3 {
        '3'
    } else if d == 4 {
        '4'
    } else if d == 5 {
        '5'
    } else if d == 6 {
        '6'
    } else if d == 7 {
        '7'
    } else if d == 8 {
        '8'
    } else if d == 9 {
        '9'
    } else if d == 10 {
        'a'
    } else if d == 11 {
        'b'
    } else if d == 12 {
        'c'
    } else if d == 13 {
        'd'
    } else if d == 14 {
        'e'
    } else {
        'f'
    }
}

/// How one character is written inside a JSON string literal: quotes and
/// backslashes get a backslash, control characters a `\u00..` escape, and
/// every other character stands as itself.
pub open spec fn esc_char(c: char) -> Seq<char> {
    if c == '"' {
        seq!['\\', '"']
    } else if c == '\\' {
        seq!['\\', '\\']
    } else if (c as u32) < 32 {
        seq!['\\', 'u', '0', '0', hex_digit((c as u32) as int / 16), hex_digit((c as u32) as int % 16)]
    } else {
        seq![c]
    }
}

/// The JSON escape of a whole text.
pub open spec fn esc(s: Seq<char>) -> Seq<char>
    decreases s.len(),
{
    if s.len() == 0 {
        Seq::empty()
    } else {
        esc(s.drop_last()) + esc_char(s.last())
    }
}

/// A key as a JSON string literal, quotes included.
pub open spec fn quoted(k: Seq<char>) -> Seq<char> {
    seq!['"'] + esc(k) + seq!['"']
}

/// The keys as a comma-separated list of JSON string literals, in order.
pub open spec fn joined_keys(keys: Seq<String>) -> Seq<char>
    decreases keys.len(),
{
    if keys.len() == 0 {
        Seq::empty()
    } else if keys.len() == 1 {
        quoted(keys[0]@)
    } else {
        joined_keys(keys.drop_last()) + seq![','] + quoted(keys.last()@)
    }
}

/// The body of one estimation request: no raw transaction, the account keys
/// in order, and the fixed options block — medium priority level, no
/// per-level breakdown, base64 encoding, lookback left to the service,
/// recommended and vote-inclusive estimates.
pub open spec fn request_body_spec(keys: Seq<String>) -> Seq<char> {
    "{\"transaction\":null,\"accountKeys\":["@ + joined_keys(keys)
        + "],\"options\":{\"priorityLevel\":\"MEDIUM\",\"includeAllPriorityFeeLevels\":false,\"transactionEncoding\":\"base64\",\"lookbackSlots\":null,\"recommended\":true,\"includeVote\":true}}"@
}

fn e_hex_digit(d: u32) -> (r: char)
    requires
        d < 16,
    ensures
        r == hex_digit(d as int),
{
    if d == 0 {
        '0'
    } else if d == 1 {
        '1'
    } else if d == 2 {
        '2'
    } else if d == 3 {
        '3'
    } else if d == 4 {
        '4'
    } else if d == 5 {
        '5'
    } else if d == 6 {
        '6'
    } else if d == 7 {
        '7'
    } else if d == 8 {
        '8'
    } else if d == 9 {
        '9'
    } else if d == 10 {
        'a'
    } else if d == 11 {
        'b'
    } else if d == 12 {
        'c'
    } else if d == 13 {
        'd'
    } else if d == 14 {
        'e'
    } else {
        'f'
    }
}

fn push_escaped(out: &mut Vec<char>, c: char)
    ensures
        final(out)@ == old(out)@ + esc_char(c),
{
    if c == '"' {
        out.push('\\');
        out.push('"');
    } else if c == '\\' {
        out.push('\\');
        out.push('\\');
    } else {
        let u = c as u32;
        if u < 32 {
            out.push('\\');
            out.push('u');
            out.push('0');
            out.push('0');
            out.push(e_hex_digit(u / 16));
            out.push(e_hex_digit(u % 16));
        } else {
            out.push(c);
        }
    }
    proof {
        assert(old(out)@ + esc_char(c) =~= out@);
    }
}

proof fn lemma_esc_snoc(s: Seq<char>, i: int)
    requires
        0 <= i < s.len(),
    ensures
        esc(s.take(i + 1)) == esc(s.take(i)) + esc_char(s[i]),
{
    assert(s.take(i + 1).drop_last() =~= s.take(i));
    assert(s.take(i + 1).last() == s[i]);
}

fn push_quoted(out: &mut Vec<char>, k: &String)
    ensures
        final(out)@ == old(out)@ + quoted(k@),
{
    out.push('"');
    let cs = to_chars(k.as_str());
    let mut j: usize = 0;
    while j < cs.len()
        invariant
            j <= cs@.len(),
            cs@ == k@,
            out@ == old(out)@ + seq!['"'] + esc(k@.take(j as int)),
        decreases cs@.len() - j,
    {
        push_escaped(out, cs[j]);
        proof {
            lemma_esc_snoc(k@, j as int);
            assert(old(out)@ + seq!['"'] + esc(k@.take(j + 1 as int)) =~= (old(out)@ + seq!['"']
                + esc(k@.take(j as int))) + esc_char(k@[j as int]));
        }
        j += 1;
    }
    out.push('"');
    proof {
        assert(k@.take(k@.len() as int) =~= k@);
        assert(old(out)@ + quoted(k@) =~= out@);
    }
}

proof fn lemma_joined_snoc(keys: Seq<String>, i: int)
    requires
        0 <= i < keys.len(),
    ensures
        i == 0 ==> joined_keys(keys.take(1)) == quoted(keys[0]@),
        i > 0 ==> joined_keys(keys.take(i + 1)) == joined_keys(keys.take(i)) + seq![','] + quoted(
            keys[i]@,
        ),
{
    assert(keys.take(i + 1).drop_last() =~= keys.take(i));
    assert(keys.take(i + 1).last() == keys[i]);
    assert(keys.take(i + 1)[0] == keys[0]);
}

/// Builds the JSON body of one estimation request for the given account
/// keys, exactly as `request_body_spec` states it.
pub fn estimate_request_body(keys: &Vec<String>) -> (r: String)
    ensures
        r@ == request_body_spec(keys@),
{
    let mut out: Vec<char> = Vec::new();
    push_chars_of(&mut out, "{\"transaction\":null,\"accountKeys\":[");
    let ghost head = "{\"transaction\":null,\"accountKeys\":["@;
    let mut i: usize = 0;
    while i < keys.len()
        invariant
            i <= keys@.len(),
            out@ == head + joined_keys(keys@.take(i as int)),
        decreases keys@.len() - i,
    {
        if i > 0 {
            out.push(',');
        }
        push_quoted(&mut out, &keys[i]);
        proof {
            lemma_joined_snoc(keys@, i as int);
            if i == 0 {
                assert(head + joined_keys(keys@.take(0)) =~= head);
                assert(head + joined_keys(keys@.take(1)) =~= head + quoted(keys@[0]@));
            } else {
                assert(head + joined_keys(keys@.take(i + 1 as int)) =~= ((head + joined_keys(
                    keys@.take(i as int),
                )).push(',')) + quoted(keys@[i as int]@));
            }
        }
        i += 1;
    }
    push_chars_of(
        &mut out,
        "],\"options\":{\"priorityLevel\":\"MEDIUM\",\"includeAllPriorityFeeLevels\":false,\"transactionEncoding\":\"base64\",\"lookbackSlots\":null,\"recommended\":true,\"includeVote\":true}}",
    );
    proof {
        assert(keys@.take(keys@.len() as int) =~= keys@);
        assert(out@ =~= request_body_spec(keys@));
    }
    chars_to_string(&out)
}

/// Builds the estimation request body straight from the operations: their
/// account keys, in order and with duplicates kept.
pub fn estimate_request_for(ops: &Vec<Operation>) -> (r: String)
    ensures
        r@ == request_body_spec(flat_keys(ops@)),
{
    let keys = account_keys(ops);
    estimate_request_body(&keys)
}

} // verus!
