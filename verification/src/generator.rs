//! Text of UI schema files: names in the schema's spelling, and the block
//! of one definition found and replaced inside an existing file.

use vstd::prelude::*;
use crate::common::same_text;
use crate::parser::{Direction, FieldLen, SlintModel, SlintModelField};
use vstd::string::StringExecFns;
use vstd::string::StringSliceAdditionalSpecFns;
use vstd::utf8::encode_utf8;
use vstd::utf8::is_ascii_chars;
use vstd::utf8::is_char_boundary;
use vstd::utf8::is_continuation_byte;
use vstd::utf8::valid_utf8;

verus! {

/// `String::push` appends the character to the end of the string.
pub assume_specification[ String::push ](s: &mut String, ch: char)
    ensures
        final(s)@ == old(s)@.push(ch),
;

/// The character of a schema name that stands for `c` of a field name: a
/// hyphen for an underscore, `c` itself otherwise.
pub open spec fn kebab_char(c: char) -> char {
    if c == '_' {
        '-'
    } else {
        c
    }
}

/// The schema's spelling of a field name: every underscore becomes a hyphen.
pub fn to_kebab_case(s: &str) -> (r: String)
    ensures
        r@ == s@.map_values(|c: char| kebab_char(c)),
{
    let mut out = String::new();
    for c in it: s.chars()
        invariant
            it.seq() == s@,
            out@ == s@.take(it.index() as int).map_values(|c: char| kebab_char(c)),
    {
        let k = if c == '_' { '-' } else { c };
        out.push(k);
        assert(s@.take(it.index() + 1).map_values(|c: char| kebab_char(c)) =~= s@.take(it.index() as int).map_values(|c: char| kebab_char(c)).push(kebab_char(c)));
    }
    assert(s@.take(s@.len() as int) =~= s@);
    out
}


/// Whether `c` has the Unicode property Uppercase, as `char::is_uppercase`
/// tells it.
pub uninterp spec fn char_is_uppercase(c: char) -> bool;

/// `char::is_uppercase` depends on the character alone.
pub assume_specification[ char::is_uppercase ](c: char) -> (r: bool)
    ensures
        r == char_is_uppercase(c),
;

/// The lower-case form of an ASCII capital, any other character itself.
pub open spec fn ascii_lowercase(c: char) -> char {
    if 'A' <= c && c <= 'Z' {
        ((c as u32) + 32) as char
    } else {
        c
    }
}

/// `char::to_ascii_lowercase` maps the ASCII letters `A` to `Z` to `a` to
/// `z` and leaves every other character as it is.
pub assume_specification[ char::to_ascii_lowercase ](c: &char) -> (r: char)
    ensures
        r == ascii_lowercase(*c),
;

/// What one character of a type name contributes to a file name: an upper
/// case character is lowered, and set off by an underscore unless it comes
/// first; any other character stands for itself.
pub open spec fn snake_piece(c: char, first: bool) -> Seq<char> {
    if !char_is_uppercase(c) {
        seq![c]
    } else if first {
        seq![ascii_lowercase(c)]
    } else {
        seq!['_', ascii_lowercase(c)]
    }
}

/// The file name spelling of a type name.
pub open spec fn snake(s: Seq<char>) -> Seq<char>
    decreases s.len(),
{
    if s.len() == 0 {
        Seq::empty()
    } else {
        snake(s.drop_last()) + snake_piece(s.last(), s.len() == 1)
    }
}

/// The file name spelling of a type name: `AdderData` gives `adder_data`.
pub fn camel_to_snake(s: &str) -> (r: String)
    ensures
        r@ == snake(s@),
{
    let mut out = String::new();
    let mut first = true;
    for c in it: s.chars()
        invariant
            it.seq() == s@,
            first == (it.index() == 0),
            out@ == snake(s@.take(it.index() as int)),
    {
        proof {
            let prefix = s@.take(it.index() + 1);
            assert(prefix.drop_last() =~= s@.take(it.index() as int));
            assert(prefix.last() == c);
        }
        if c.is_uppercase() {
            if !first {
                out.push('_');
            }
            out.push(c.to_ascii_lowercase());
        } else {
            out.push(c);
        }
        first = false;
        assert(out@ =~= snake(s@.take(it.index() + 1)));
    }
    assert(s@.take(s@.len() as int) =~= s@);
    out
}


/// The byte that opens a block.
pub const OPEN_BRACE: u8 = 0x7B;

/// The byte that closes a block.
pub const CLOSE_BRACE: u8 = 0x7D;

/// The byte that ends a line.
pub const NEWLINE: u8 = 0x0A;

/// `p` stands in `b` at byte `i`.
pub open spec fn matches_at(b: Seq<u8>, p: Seq<u8>, i: int) -> bool {
    0 <= i && i + p.len() <= b.len() && b.subrange(i, i + p.len()) == p
}

/// `i` is the first place at which `p` stands in `b`.
pub open spec fn first_match(b: Seq<u8>, p: Seq<u8>, i: int) -> bool {
    matches_at(b, p, i) && forall|j: int| 0 <= j < i ==> !matches_at(b, p, j)
}

/// `j` is the first place at or after `from` at which `b` holds the byte
/// `c`.
pub open spec fn first_byte_from(b: Seq<u8>, from: int, c: u8, j: int) -> bool {
    0 <= from <= j < b.len() && b[j] == c && forall|k: int| from <= k < j ==> b[k] != c
}

/// How many more blocks were opened than closed by the bytes of `b` from
/// `from` up to, not including, `to`.
pub open spec fn depth(b: Seq<u8>, from: int, to: int) -> int
    decreases to - from,
{
    if to <= from {
        0
    } else if b[to - 1] == OPEN_BRACE {
        depth(b, from, to - 1) + 1
    } else if b[to - 1] == CLOSE_BRACE {
        depth(b, from, to - 1) - 1
    } else {
        depth(b, from, to - 1)
    }
}

/// `end` is the first place at which the block that opens at `start` is
/// closed again.
pub open spec fn first_close(b: Seq<u8>, start: int, end: int) -> bool {
    0 <= start <= end < b.len() && depth(b, start, end + 1) == 0 && forall|to: int|
        start < to <= end ==> depth(b, start, to) != 0
}

/// `start` is the brace that opens the block of the first definition in `b`
/// whose header is `p`, and `end` the brace that closes it.
pub open spec fn block_range(b: Seq<u8>, p: Seq<u8>, start: int, end: int) -> bool {
    exists|h: int|
        first_match(b, p, h) && first_byte_from(b, h, OPEN_BRACE, start) && first_close(
            b,
            start,
            end,
        )
}

/// Whether `p` stands in `b` at byte `i`.
fn matches_here(b: &[u8], p: &[u8], i: usize) -> (r: bool)
    requires
        i + p@.len() <= b@.len(),
    ensures
        r == matches_at(b@, p@, i as int),
{
    let n = b.len();
    let mut k: usize = 0;
    while k < p.len()
        invariant
            k <= p@.len(),
            n == b@.len(),
            i + p@.len() <= b@.len(),
            forall|j: int| 0 <= j < k ==> b@[i + j] == p@[j],
        decreases p@.len() - k,
    {
        if b[i + k] != p[k] {
            assert(b@.subrange(i as int, i + p@.len())[k as int] == b@[i + k]);
            return false;
        }
        k += 1;
    }
    assert(b@.subrange(i as int, i + p@.len()) =~= p@);
    true
}

/// The first place at which `p` stands in `b`, if it stands anywhere.
fn find_pattern(b: &[u8], p: &[u8]) -> (r: Option<usize>)
    ensures
        match r {
            Some(i) => first_match(b@, p@, i as int),
            None => forall|j: int| !matches_at(b@, p@, j),
        },
{
    if p.len() > b.len() {
        return None;
    }
    let last: usize = b.len() - p.len();
    let mut i: usize = 0;
    while i < last
        invariant
            last == b@.len() - p@.len(),
            i <= last,
            forall|j: int| 0 <= j < i ==> !matches_at(b@, p@, j),
        decreases last - i,
    {
        if matches_here(b, p, i) {
            return Some(i);
        }
        i += 1;
    }
    if matches_here(b, p, last) {
        Some(last)
    } else {
        None
    }
}

/// The first place at or after `from` at which `b` holds the byte `c`.
fn find_byte_from(b: &[u8], from: usize, c: u8) -> (r: Option<usize>)
    requires
        from <= b@.len(),
    ensures
        match r {
            Some(j) => first_byte_from(b@, from as int, c, j as int),
            None => forall|k: int| from <= k < b@.len() ==> b@[k] != c,
        },
{
    let mut j: usize = from;
    while j < b.len()
        invariant
            from <= j <= b@.len(),
            forall|k: int| from <= k < j ==> b@[k] != c,
        decreases b@.len() - j,
    {
        if b[j] == c {
            return Some(j);
        }
        j += 1;
    }
    None
}

/// Between the brace that opens a block and the first place where the block
/// is closed, the depth stays between one and the number of bytes read.
proof fn lemma_depth_bounds(b: Seq<u8>, start: int, to: int)
    requires
        0 <= start < to <= b.len(),
        b[start] == OPEN_BRACE,
        forall|k: int| start < k < to ==> depth(b, start, k) != 0,
    ensures
        depth(b, start, to) <= to - start,
        to - 1 > start ==> depth(b, start, to - 1) >= 1,
    decreases to - start,
{
    if to - 1 > start {
        lemma_depth_bounds(b, start, to - 1);
        assert(depth(b, start, to - 1) != 0);
        if to - 2 > start {
            assert(depth(b, start, to - 2) >= 1);
        } else {
            assert(depth(b, start, start) == 0);
        }
    } else {
        assert(depth(b, start, start) == 0);
    }
}

/// Finds the block of the first definition whose header is `header_pattern`:
/// the byte offsets of the brace that opens it and of the brace that closes
/// it. There is none where the header does not occur, no brace follows it,
/// or the block is not closed.
pub fn find_block_range(content: &str, header_pattern: &str) -> (r: Option<(usize, usize)>)
    ensures
        match r {
            Some((start, end)) => block_range(
                content.spec_bytes(),
                header_pattern.spec_bytes(),
                start as int,
                end as int,
            ),
            None => forall|start: int, end: int|
                !block_range(content.spec_bytes(), header_pattern.spec_bytes(), start, end),
        },
{
    let b = content.as_bytes();
    let p = header_pattern.as_bytes();
    let header_start = match find_pattern(b, p) {
        Some(i) => i,
        None => {
            return None;
        },
    };
    let start = match find_byte_from(b, header_start, OPEN_BRACE) {
        Some(j) => j,
        None => {
            return None;
        },
    };
    let mut balance: usize = 0;
    let mut i: usize = start;
    while i < b.len()
        invariant
            start <= i <= b@.len(),
            b@ == content.spec_bytes(),
            p@ == header_pattern.spec_bytes(),
            first_match(b@, p@, header_start as int),
            first_byte_from(b@, header_start as int, OPEN_BRACE, start as int),
            balance == depth(b@, start as int, i as int),
            forall|to: int| start < to <= i ==> depth(b@, start as int, to) != 0,
        decreases b@.len() - i,
    {
        proof {
            lemma_depth_bounds(b@, start as int, i + 1);
        }
        if b[i] == OPEN_BRACE {
            balance += 1;
        } else if b[i] == CLOSE_BRACE {
            balance -= 1;
            if balance == 0 {
                assert(first_match(b@, p@, header_start as int) && first_byte_from(
                    b@,
                    header_start as int,
                    OPEN_BRACE,
                    start as int,
                ) && first_close(b@, start as int, i as int));
                return Some((start, i));
            }
        }
        i += 1;
    }
    assert forall|s: int, e: int| !block_range(b@, p@, s, e) by {
        if block_range(b@, p@, s, e) {
            let h = choose|h: int|
                first_match(b@, p@, h) && first_byte_from(b@, h, OPEN_BRACE, s) && first_close(
                    b@,
                    s,
                    e,
                );
            assert(h == header_start);
            assert(s == start);
        }
    }
    None
}


/// The file `b` with the inside of the block that opens at `start` and
/// closes at `end` replaced by `body` on lines of its own.
pub open spec fn block_replaced(b: Seq<u8>, start: int, end: int, body: Seq<u8>) -> Seq<u8> {
    b.subrange(0, start + 1) + seq![NEWLINE] + body + seq![NEWLINE] + b.subrange(
        end,
        b.len() as int,
    )
}

/// The file `b` with `block` added at its end, after an empty line where
/// `b` holds anything, and followed by a line end.
pub open spec fn block_appended(b: Seq<u8>, block: Seq<u8>) -> Seq<u8> {
    let end_line: Seq<u8> = if b.len() > 0 && b.last() != NEWLINE {
        seq![NEWLINE]
    } else {
        Seq::empty()
    };
    let empty_line: Seq<u8> = if b.len() > 0 {
        seq![NEWLINE]
    } else {
        Seq::empty()
    };
    b + end_line + empty_line + block + seq![NEWLINE]
}

/// The encoding of two texts in a row is the two encodings in a row.
pub proof fn lemma_encode_concat(a: Seq<char>, b: Seq<char>)
    ensures
        encode_utf8(a + b) == encode_utf8(a) + encode_utf8(b),
    decreases a.len(),
{
    if a.len() == 0 {
        assert(a + b =~= b);
        assert(encode_utf8(a) + encode_utf8(b) =~= encode_utf8(b));
    } else {
        lemma_encode_concat(a.drop_first(), b);
        assert((a + b).drop_first() =~= a.drop_first() + b);
        assert(encode_utf8(a + b) =~= encode_utf8(a) + encode_utf8(b));
    }
}

/// The encoding of a text of one ASCII character is that one byte.
proof fn lemma_encode_single(c: char)
    requires
        c <= '\u{7f}',
    ensures
        encode_utf8(seq![c]) == seq![c as u8],
{
    let chars = seq![c];
    assert(is_ascii_chars(chars));
    vstd::utf8::is_ascii_chars_encode_utf8(chars);
    assert(encode_utf8(chars) =~= seq![c as u8]);
}

/// A place in a text at which a byte of a brace stands begins a character.
proof fn lemma_brace_is_boundary(chars: Seq<char>, i: int)
    requires
        0 <= i < encode_utf8(chars).len(),
        encode_utf8(chars)[i] == OPEN_BRACE || encode_utf8(chars)[i] == CLOSE_BRACE,
    ensures
        is_char_boundary(encode_utf8(chars), i),
{
    vstd::utf8::encode_utf8_valid_utf8(chars);
    vstd::utf8::is_char_boundary_iff_not_is_continuation_byte(encode_utf8(chars), i);
}

/// A file holds at most one block range for a header.
pub proof fn lemma_block_range_unique(b: Seq<u8>, p: Seq<u8>, s1: int, e1: int, s2: int, e2: int)
    requires
        block_range(b, p, s1, e1),
        block_range(b, p, s2, e2),
    ensures
        s1 == s2,
        e1 == e2,
{
    let h1 = choose|h: int|
        first_match(b, p, h) && first_byte_from(b, h, OPEN_BRACE, s1) && first_close(b, s1, e1);
    let h2 = choose|h: int|
        first_match(b, p, h) && first_byte_from(b, h, OPEN_BRACE, s2) && first_close(b, s2, e2);
    assert(h1 == h2);
    assert(s1 == s2);
    if e1 < e2 {
        assert(depth(b, s1, e1 + 1) != 0);
    } else if e2 < e1 {
        assert(depth(b, s1, e2 + 1) != 0);
    }
}

/// A block range begins at an opening brace and ends, later, at a closing
/// one.
pub proof fn lemma_block_braces(b: Seq<u8>, p: Seq<u8>, start: int, end: int)
    requires
        block_range(b, p, start, end),
    ensures
        0 <= start < end < b.len(),
        b[start] == OPEN_BRACE,
        b[end] == CLOSE_BRACE,
{
    let h = choose|h: int|
        first_match(b, p, h) && first_byte_from(b, h, OPEN_BRACE, start) && first_close(
            b,
            start,
            end,
        );
    assert(depth(b, start, start) == 0);
    assert(depth(b, start, start + 1) == 1);
    lemma_depth_bounds(b, start, end + 1);
    if end > start {
        assert(depth(b, start, end) != 0);
    }
}

/// Puts `new_body` in place of the inside of the block of the first
/// definition whose header is `header_pattern`. Where `content` holds no
/// such block, the block that `default_block_gen` gives is added at the
/// end instead.
pub fn replace_or_append_block<F>(
    content: String,
    header_pattern: &str,
    new_body: &str,
    default_block_gen: F,
) -> (r: String) where F: Fn() -> String
    requires
        call_requires(default_block_gen, ()),
    ensures
        forall|start: int, end: int|
            #[trigger] block_range(encode_utf8(content@), header_pattern.spec_bytes(), start, end)
                ==> encode_utf8(r@) == block_replaced(
                encode_utf8(content@),
                start,
                end,
                new_body.spec_bytes(),
            ),
        (forall|start: int, end: int|
            !#[trigger] block_range(encode_utf8(content@), header_pattern.spec_bytes(), start, end))
            ==> exists|block: String|
            call_ensures(default_block_gen, (), block) && encode_utf8(r@) == block_appended(
                encode_utf8(content@),
                encode_utf8(block@),
            ),
{
    let ghost b = encode_utf8(content@);
    let text = content.as_str();
    assert(text.spec_bytes() == b);
    let range = find_block_range(text, header_pattern);
    match range {
        Some((start, end)) => {
            proof {
                lemma_block_braces(b, header_pattern.spec_bytes(), start as int, end as int);
                lemma_brace_is_boundary(content@, start as int);
                lemma_brace_is_boundary(content@, end as int);
            }
            let (head, _) = content.as_str().split_at(start);
            let (_, tail) = content.as_str().split_at(end);
            let mut out = String::from_str(head);
            out.append("{");
            out.append("\n");
            out.append(new_body);
            out.append("\n");
            out.append(tail);
            proof {
                reveal_strlit("{");
                reveal_strlit("\n");
                assert("{"@ =~= seq!['{']);
                assert("\n"@ =~= seq!['\n']);
                lemma_encode_single('{');
                lemma_encode_single('\n');
                let s1 = head@ + "{"@;
                let s2 = s1 + "\n"@;
                let s3 = s2 + new_body@;
                let s4 = s3 + "\n"@;
                lemma_encode_concat(head@, "{"@);
                lemma_encode_concat(s1, "\n"@);
                lemma_encode_concat(s2, new_body@);
                lemma_encode_concat(s3, "\n"@);
                lemma_encode_concat(s4, tail@);
                assert(encode_utf8(head@) + seq![OPEN_BRACE] =~= b.subrange(0, start + 1));
                assert(encode_utf8(out@) =~= block_replaced(
                    b,
                    start as int,
                    end as int,
                    new_body.spec_bytes(),
                ));
                assert forall|s: int, e: int|
                    block_range(b, header_pattern.spec_bytes(), s, e) implies s == start && e
                    == end by {
                    lemma_block_range_unique(
                        b,
                        header_pattern.spec_bytes(),
                        s,
                        e,
                        start as int,
                        end as int,
                    );
                }
            }
            out
        },
        None => {
            let mut out = content;
            let bytes = out.as_str().as_bytes();
            let n = bytes.len();
            let filled = n > 0;
            let ends_line = filled && bytes[n - 1] == NEWLINE;
            if filled && !ends_line {
                out.append("\n");
            }
            let ghost mid = out@;
            if filled {
                out.append("\n");
            }
            let ghost before = out@;
            let block = default_block_gen();
            out.append(block.as_str());
            out.append("\n");
            proof {
                reveal_strlit("\n");
                assert("\n"@ =~= seq!['\n']);
                lemma_encode_single('\n');
                lemma_encode_concat(content@, "\n"@);
                lemma_encode_concat(mid, "\n"@);
                lemma_encode_concat(before, block@);
                lemma_encode_concat(before + block@, "\n"@);
                assert(encode_utf8(out@) =~= block_appended(b, encode_utf8(block@)));
            }
            out
        },
    }
}


/// Whether `b` begins with `p`.
fn begins_with(b: &[u8], p: &[u8]) -> (r: bool)
    ensures
        r == matches_at(b@, p@, 0),
{
    if p.len() > b.len() {
        false
    } else {
        matches_here(b, p, 0)
    }
}

/// Whether `b` ends with `p`.
fn ends_with(b: &[u8], p: &[u8]) -> (r: bool)
    ensures
        r == matches_at(b@, p@, b@.len() - p@.len()),
{
    if p.len() > b.len() {
        false
    } else {
        matches_here(b, p, b.len() - p.len())
    }
}

/// Whether a type, as written, is a bounded string: `ArrayString` with its
/// capacity in angle brackets.
pub open spec fn is_bounded_string(ty: Seq<char>) -> bool {
    let b = encode_utf8(ty);
    (matches_at(b, encode_utf8("ArrayString<"@), 0) || matches_at(
        b,
        encode_utf8("ArrayString::<"@),
        0,
    )) && matches_at(b, encode_utf8(">"@), b.len() - encode_utf8(">"@).len())
}

/// The name in the schema of the type that is written `ty` in native
/// code: the schema knows integers, floating point numbers, booleans and
/// strings, and nothing for a signal; any other type keeps its name.
pub open spec fn slint_type_name(ty: Seq<char>) -> Seq<char> {
    if ty == "i8"@ || ty == "i16"@ || ty == "i32"@ || ty == "i64"@ || ty == "isize"@ || ty == "u8"@
        || ty == "u16"@ || ty == "u32"@ || ty == "u64"@ || ty == "usize"@ {
        "int"@
    } else if ty == "f32"@ || ty == "f64"@ {
        "float"@
    } else if ty == "bool"@ {
        "bool"@
    } else if ty == "char"@ || ty == "String"@ || is_bounded_string(ty) {
        "string"@
    } else if ty == "()"@ {
        "void"@
    } else {
        ty
    }
}

/// The name in the schema of the type that is written `ty` in native
/// code.
pub fn rust_type_to_slint_type(ty: &str) -> (r: String)
    ensures
        r@ == slint_type_name(ty@),
{
    if same_text(ty, "i8") || same_text(ty, "i16") || same_text(ty, "i32") || same_text(ty, "i64")
        || same_text(ty, "isize") || same_text(ty, "u8") || same_text(ty, "u16") || same_text(
        ty,
        "u32",
    ) || same_text(ty, "u64") || same_text(ty, "usize") {
        String::from_str("int")
    } else if same_text(ty, "f32") || same_text(ty, "f64") {
        String::from_str("float")
    } else if same_text(ty, "bool") {
        String::from_str("bool")
    } else if same_text(ty, "char") || same_text(ty, "String") {
        String::from_str("string")
    } else {
        let b = ty.as_bytes();
        let bounded = (begins_with(b, "ArrayString<".as_bytes()) || begins_with(
            b,
            "ArrayString::<".as_bytes(),
        )) && ends_with(b, ">".as_bytes());
        if bounded {
            String::from_str("string")
        } else if same_text(ty, "()") {
            String::from_str("void")
        } else {
            String::from_str(ty)
        }
    }
}

/// The type of a field in the schema: a list of its elements' type where
/// the field has more than one element.
pub open spec fn field_slint_type(field: SlintModelField) -> Seq<char> {
    if field.len is Scalar {
        slint_type_name(field.ty@)
    } else {
        "["@ + slint_type_name(field.ty@) + "]"@
    }
}

/// The type of a field in the schema.
pub fn slint_type_of(field: &SlintModelField) -> (r: String)
    ensures
        r@ == field_slint_type(*field),
{
    let inner = rust_type_to_slint_type(field.ty.as_str());
    match field.len {
        FieldLen::Scalar => inner,
        _ => {
            let mut out = String::from_str("[");
            out.append(inner.as_str());
            out.append("]");
            out
        },
    }
}


/// The texts of a list of lines.
pub open spec fn texts(lines: Seq<String>) -> Seq<Seq<char>> {
    Seq::new(lines.len(), |i: int| lines[i]@)
}

/// The lines one below the other: a line end stands between any two.
pub open spec fn joined(lines: Seq<Seq<char>>) -> Seq<char>
    decreases lines.len(),
{
    if lines.len() == 0 {
        Seq::empty()
    } else if lines.len() == 1 {
        lines[0]
    } else {
        joined(lines.drop_last()) + "\n"@ + lines.last()
    }
}

/// Puts the lines one below the other.
pub fn join_lines(lines: &Vec<String>) -> (r: String)
    ensures
        r@ == joined(texts(lines@)),
{
    let mut out = String::new();
    let mut i: usize = 0;
    while i < lines.len()
        invariant
            i <= lines@.len(),
            out@ == joined(texts(lines@).take(i as int)),
        decreases lines@.len() - i,
    {
        proof {
            let upto = texts(lines@).take(i + 1);
            assert(upto.drop_last() =~= texts(lines@).take(i as int));
            assert(upto.last() == lines@[i as int]@);
        }
        if i > 0 {
            out.append("\n");
        }
        out.append(lines[i].as_str());
        i += 1;
        assert(out@ =~= joined(texts(lines@).take(i as int)));
    }
    assert(texts(lines@).take(lines@.len() as int) =~= texts(lines@));
    out
}

/// The spelling of a field's name in the schema.
pub open spec fn kebab(name: Seq<char>) -> Seq<char> {
    name.map_values(|c: char| kebab_char(c))
}

/// The line of a field in the schema's struct of a row.
pub open spec fn struct_line(field: SlintModelField) -> Seq<char> {
    "    "@ + kebab(field.name@) + ": "@ + field_slint_type(field) + ","@
}

/// The line that declares the rows in the schema's global.
pub open spec fn data_line(struct_name: Seq<char>) -> Seq<char> {
    "    in-out property <["@ + struct_name + "]> data: [{}];"@
}

/// The line of a signal in the schema's global.
pub open spec fn callback_line(field: SlintModelField) -> Seq<char> {
    "    callback "@ + kebab(field.name@) + "(int);"@
}

/// The lines of a field in the schema's component: a signal is handed on
/// to the global together with the component's index; a value is bound to
/// the field of the component's row, and written back where the host
/// writes it; a nested model has no lines.
pub open spec fn component_lines(field: SlintModelField, global: Seq<char>, index: Seq<char>) -> Seq<
    Seq<char>,
> {
    let k = kebab(field.name@);
    let t = field_slint_type(field);
    if field.is_signal() {
        seq![
            "    callback global-"@ + k + ";"@,
            "    global-"@ + k + " => { "@ + global + "."@ + k + "("@ + index + "); }"@,
        ]
    } else if field.direction == Direction::In {
        seq![
            "    in-out property <"@ + t + "> global-"@ + k + ": "@ + global + ".data["@ + index
                + "]."@ + k + ";"@,
            "    changed global-"@ + k + " => { "@ + global + ".data["@ + index + "]."@ + k
                + " = self.global-"@ + k + "; }"@,
        ]
    } else if field.direction == Direction::Out {
        seq![
            "    out property <"@ + t + "> global-"@ + k + ": "@ + global + ".data["@ + index
                + "]."@ + k + ";"@,
        ]
    } else {
        Seq::empty()
    }
}

/// Adds the lines of a field in the schema's component to `lines`.
fn push_component_lines(lines: &mut Vec<String>, field: &SlintModelField, global: &str, index: &str)
    ensures
        texts(final(lines)@) == texts(old(lines)@) + component_lines(*field, global@, index@),
{
    let k = to_kebab_case(field.name.as_str());
    let t = slint_type_of(field);
    if field.signal() {
        let mut first = String::from_str("    callback global-");
        first.append(k.as_str());
        first.append(";");
        let mut second = String::from_str("    global-");
        second.append(k.as_str());
        second.append(" => { ");
        second.append(global);
        second.append(".");
        second.append(k.as_str());
        second.append("(");
        second.append(index);
        second.append("); }");
        lines.push(first);
        lines.push(second);
    } else if field.direction == Direction::In {
        let mut first = String::from_str("    in-out property <");
        first.append(t.as_str());
        first.append("> global-");
        first.append(k.as_str());
        first.append(": ");
        first.append(global);
        first.append(".data[");
        first.append(index);
        first.append("].");
        first.append(k.as_str());
        first.append(";");
        let mut second = String::from_str("    changed global-");
        second.append(k.as_str());
        second.append(" => { ");
        second.append(global);
        second.append(".data[");
        second.append(index);
        second.append("].");
        second.append(k.as_str());
        second.append(" = self.global-");
        second.append(k.as_str());
        second.append("; }");
        lines.push(first);
        lines.push(second);
    } else if field.direction == Direction::Out {
        let mut first = String::from_str("    out property <");
        first.append(t.as_str());
        first.append("> global-");
        first.append(k.as_str());
        first.append(": ");
        first.append(global);
        first.append(".data[");
        first.append(index);
        first.append("].");
        first.append(k.as_str());
        first.append(";");
        lines.push(first);
    }
    assert(texts(lines@) =~= texts(old(lines)@) + component_lines(*field, global@, index@));
}


/// The lines of the schema's struct of a row for the first `n` fields: a
/// line for every field that is no signal.
pub open spec fn struct_lines(fields: Seq<SlintModelField>, n: int) -> Seq<Seq<char>>
    decreases n,
{
    if n <= 0 {
        Seq::empty()
    } else if fields[n - 1].is_signal() {
        struct_lines(fields, n - 1)
    } else {
        struct_lines(fields, n - 1).push(struct_line(fields[n - 1]))
    }
}

/// Whether one of the first `n` fields is no signal.
pub open spec fn has_data(fields: Seq<SlintModelField>, n: int) -> bool
    decreases n,
{
    n > 0 && (has_data(fields, n - 1) || !fields[n - 1].is_signal())
}

/// The lines of the schema's global for the first `n` fields, where the
/// rows are declared at the place of the first field that is no signal: a
/// line for every signal, and the line of the rows.
pub open spec fn global_lines(fields: Seq<SlintModelField>, n: int, struct_name: Seq<char>) -> Seq<
    Seq<char>,
>
    decreases n,
{
    if n <= 0 {
        Seq::empty()
    } else if fields[n - 1].is_signal() {
        global_lines(fields, n - 1, struct_name).push(callback_line(fields[n - 1]))
    } else if has_data(fields, n - 1) {
        global_lines(fields, n - 1, struct_name)
    } else {
        global_lines(fields, n - 1, struct_name).push(data_line(struct_name))
    }
}

/// The lines of the signals of the first `n` fields in the schema's
/// global.
pub open spec fn callback_lines(fields: Seq<SlintModelField>, n: int) -> Seq<Seq<char>>
    decreases n,
{
    if n <= 0 {
        Seq::empty()
    } else if fields[n - 1].is_signal() {
        callback_lines(fields, n - 1).push(callback_line(fields[n - 1]))
    } else {
        callback_lines(fields, n - 1)
    }
}

/// The lines of the first `n` fields in the schema's component.
pub open spec fn fields_component_lines(
    fields: Seq<SlintModelField>,
    n: int,
    global: Seq<char>,
    index: Seq<char>,
) -> Seq<Seq<char>>
    decreases n,
{
    if n <= 0 {
        Seq::empty()
    } else {
        fields_component_lines(fields, n - 1, global, index) + component_lines(
            fields[n - 1],
            global,
            index,
        )
    }
}

/// A definition of the schema: its head, its name, and its lines between
/// braces.
pub open spec fn definition(head: Seq<char>, name: Seq<char>, open: Seq<char>, body: Seq<char>) -> Seq<
    char,
> {
    head + name + open + body + "\n}"@
}

/// A definition of the schema.
fn define(head: &str, name: &str, open: &str, body: &str) -> (r: String)
    ensures
        r@ == definition(head@, name@, open@, body@),
{
    let mut out = String::from_str(head);
    out.append(name);
    out.append(open);
    out.append(body);
    out.append("\n}");
    out
}

/// The line of a field in the schema's struct of a row.
fn make_struct_line(field: &SlintModelField) -> (r: String)
    ensures
        r@ == struct_line(*field),
{
    let k = to_kebab_case(field.name.as_str());
    let t = slint_type_of(field);
    let mut out = String::from_str("    ");
    out.append(k.as_str());
    out.append(": ");
    out.append(t.as_str());
    out.append(",");
    out
}

/// The line that declares the rows in the schema's global.
fn make_data_line(struct_name: &str) -> (r: String)
    ensures
        r@ == data_line(struct_name@),
{
    let mut out = String::from_str("    in-out property <[");
    out.append(struct_name);
    out.append("]> data: [{}];");
    out
}

/// The line of a signal in the schema's global.
fn make_callback_line(field: &SlintModelField) -> (r: String)
    ensures
        r@ == callback_line(*field),
{
    let k = to_kebab_case(field.name.as_str());
    let mut out = String::from_str("    callback ");
    out.append(k.as_str());
    out.append("(int);");
    out
}

/// The schema of a model as a piece of documentation: the struct of a
/// row, the global that holds the rows, and the component that binds one
/// row, in a fenced block.
pub open spec fn generated(input: SlintModel) -> Seq<char> {
    let fields = input.fields@;
    let n = fields.len() as int;
    let struct_name = input.global_name@;
    let global_name = input.global_name@ + "Global"@;
    let component_name = input.global_name@ + "Component"@;
    let component = seq!["    in-out property <int> global-index: 0;"@] + fields_component_lines(
        fields,
        n,
        global_name,
        "global-index"@,
    );
    " 생성된 Slint 코드:\n```slint\n"@ + definition(
        "export struct "@,
        struct_name,
        " {\n"@,
        joined(struct_lines(fields, n)),
    ) + "\n\n"@ + definition(
        "export global "@,
        global_name,
        " {\n"@,
        joined(global_lines(fields, n, struct_name)),
    ) + "\n\n"@ + definition(
        "component "@,
        component_name,
        " inherits Rectangle {\n"@,
        joined(component),
    ) + "\n```"@
}

/// The schema of a model as a piece of documentation.
pub fn generate(input: &SlintModel) -> (r: String)
    ensures
        r@ == generated(*input),
{
    let struct_name = input.global_name.clone();
    let mut global_name = input.global_name.clone();
    global_name.append("Global");
    let mut component_name = input.global_name.clone();
    component_name.append("Component");
    let mut struct_fields: Vec<String> = Vec::new();
    let mut global_fields: Vec<String> = Vec::new();
    let mut component_fields: Vec<String> = Vec::new();
    component_fields.push(String::from_str("    in-out property <int> global-index: 0;"));
    let mut data_prop_emitted = false;
    let ghost fields = input.fields@;
    assert(texts(component_fields@) =~= seq!["    in-out property <int> global-index: 0;"@]
        + fields_component_lines(fields, 0, global_name@, "global-index"@));
    assert(texts(struct_fields@) =~= struct_lines(fields, 0));
    assert(texts(global_fields@) =~= global_lines(fields, 0, struct_name@));
    let mut i: usize = 0;
    while i < input.fields.len()
        invariant
            i <= fields.len(),
            fields == input.fields@,
            data_prop_emitted == has_data(fields, i as int),
            texts(struct_fields@) == struct_lines(fields, i as int),
            texts(global_fields@) == global_lines(fields, i as int, struct_name@),
            texts(component_fields@) == seq!["    in-out property <int> global-index: 0;"@]
                + fields_component_lines(fields, i as int, global_name@, "global-index"@),
        decreases fields.len() - i,
    {
        let field = &input.fields[i];
        if field.signal() {
            global_fields.push(make_callback_line(field));
        } else {
            struct_fields.push(make_struct_line(field));
            if !data_prop_emitted {
                global_fields.push(make_data_line(struct_name.as_str()));
                data_prop_emitted = true;
            }
        }
        push_component_lines(&mut component_fields, field, global_name.as_str(), "global-index");
        i += 1;
        proof {
            assert(texts(struct_fields@) =~= struct_lines(fields, i as int));
            assert(texts(global_fields@) =~= global_lines(fields, i as int, struct_name@));
            assert(texts(component_fields@) =~= seq!["    in-out property <int> global-index: 0;"@]
                + fields_component_lines(fields, i as int, global_name@, "global-index"@));
        }
    }
    let struct_def = define(
        "export struct ",
        struct_name.as_str(),
        " {\n",
        join_lines(&struct_fields).as_str(),
    );
    let global_def = define(
        "export global ",
        global_name.as_str(),
        " {\n",
        join_lines(&global_fields).as_str(),
    );
    let component_def = define(
        "component ",
        component_name.as_str(),
        " inherits Rectangle {\n",
        join_lines(&component_fields).as_str(),
    );
    let mut out = String::from_str(" 생성된 Slint 코드:\n```slint\n");
    out.append(struct_def.as_str());
    out.append("\n\n");
    out.append(global_def.as_str());
    out.append("\n\n");
    out.append(component_def.as_str());
    out.append("\n```");
    out
}


/// The first two lines of the schema's component in a schema file: the
/// number of rows and the index of the row that the component binds.
pub open spec fn component_head(global: Seq<char>) -> Seq<Seq<char>> {
    seq![
        "    in-out property <int> global-data-length: "@ + global + ".data.length;"@,
        "    in-out property <int> global-data-index: 0;"@,
    ]
}

/// The parts of the schema of a model in a schema file: the name and the
/// lines of the struct of a row, of the global that holds the rows, and of
/// the component that binds one row.
pub open spec fn code_components(input: SlintModel) -> (
    Seq<char>,
    Seq<char>,
    Seq<char>,
    Seq<char>,
    Seq<char>,
    Seq<char>,
) {
    let fields = input.fields@;
    let n = fields.len() as int;
    let global_name = input.global_name@;
    let struct_name = input.global_name@ + "Data"@;
    (
        struct_name,
        joined(struct_lines(fields, n)),
        global_name,
        joined(seq![data_line(struct_name)] + callback_lines(fields, n)),
        input.global_name@ + "Component"@,
        joined(
            component_head(global_name) + fields_component_lines(
                fields,
                n,
                global_name,
                "global-data-index"@,
            ),
        ),
    )
}

/// The parts of the schema of a model in a schema file.
pub fn generate_code_components(input: &SlintModel) -> (r: (String, String, String, String, String, String))
    ensures
        (r.0@, r.1@, r.2@, r.3@, r.4@, r.5@) == code_components(*input),
{
    let global_name = input.global_name.clone();
    let mut struct_name = input.global_name.clone();
    struct_name.append("Data");
    let mut component_name = input.global_name.clone();
    component_name.append("Component");
    let mut struct_fields: Vec<String> = Vec::new();
    let mut global_fields: Vec<String> = Vec::new();
    global_fields.push(make_data_line(struct_name.as_str()));
    let mut component_fields: Vec<String> = Vec::new();
    let mut length = String::from_str("    in-out property <int> global-data-length: ");
    length.append(global_name.as_str());
    length.append(".data.length;");
    component_fields.push(length);
    component_fields.push(String::from_str("    in-out property <int> global-data-index: 0;"));
    let ghost fields = input.fields@;
    assert(texts(component_fields@) =~= component_head(global_name@) + fields_component_lines(
        fields,
        0,
        global_name@,
        "global-data-index"@,
    ));
    assert(texts(struct_fields@) =~= struct_lines(fields, 0));
    assert(texts(global_fields@) =~= seq![data_line(struct_name@)] + callback_lines(fields, 0));
    let mut i: usize = 0;
    while i < input.fields.len()
        invariant
            i <= fields.len(),
            fields == input.fields@,
            texts(struct_fields@) == struct_lines(fields, i as int),
            texts(global_fields@) == seq![data_line(struct_name@)] + callback_lines(fields, i as int),
            texts(component_fields@) == component_head(global_name@) + fields_component_lines(
                fields,
                i as int,
                global_name@,
                "global-data-index"@,
            ),
        decreases fields.len() - i,
    {
        let field = &input.fields[i];
        if field.signal() {
            global_fields.push(make_callback_line(field));
        } else {
            struct_fields.push(make_struct_line(field));
        }
        push_component_lines(
            &mut component_fields,
            field,
            global_name.as_str(),
            "global-data-index",
        );
        i += 1;
        proof {
            assert(texts(struct_fields@) =~= struct_lines(fields, i as int));
            let head = seq![data_line(struct_name@)];
            let before = callback_lines(fields, i - 1);
            if fields[i - 1].is_signal() {
                assert((head + before).push(callback_line(fields[i - 1])) =~= head + before.push(
                    callback_line(fields[i - 1]),
                ));
            }
            assert(texts(global_fields@) =~= head + callback_lines(fields, i as int));
            assert(texts(component_fields@) =~= component_head(global_name@)
                + fields_component_lines(fields, i as int, global_name@, "global-data-index"@));
        }
    }
    let struct_body = join_lines(&struct_fields);
    let global_body = join_lines(&global_fields);
    let component_body = join_lines(&component_fields);
    (struct_name, struct_body, global_name, global_body, component_name, component_body)
}

/// The schema of a model in a schema file, as a piece of documentation.
pub open spec fn slint_doc(input: SlintModel) -> Seq<char> {
    let parts = code_components(input);
    " 생성된 Slint 코드:\n```slint\n"@ + definition("export struct "@, parts.0, " {\n"@, parts.1)
        + "\n\n"@ + definition("export global "@, parts.2, " {\n"@, parts.3) + "\n\n"@ + definition(
        "export component "@,
        parts.4,
        " inherits Rectangle {\n"@,
        parts.5,
    ) + "\n```"@
}

/// The schema of a model in a schema file, as a piece of documentation.
pub fn generate_slint_doc(input: &SlintModel) -> (r: String)
    ensures
        r@ == slint_doc(*input),
{
    let parts = generate_code_components(input);
    let struct_def = define("export struct ", parts.0.as_str(), " {\n", parts.1.as_str());
    let global_def = define("export global ", parts.2.as_str(), " {\n", parts.3.as_str());
    let component_def = define(
        "export component ",
        parts.4.as_str(),
        " inherits Rectangle {\n",
        parts.5.as_str(),
    );
    let mut out = String::from_str(" 생성된 Slint 코드:\n```slint\n");
    out.append(struct_def.as_str());
    out.append("\n\n");
    out.append(global_def.as_str());
    out.append("\n\n");
    out.append(component_def.as_str());
    out.append("\n```");
    out
}


/// The snake case spelling of a text, as the crate `heck` makes it.
pub uninterp spec fn heck_snake_case(s: Seq<char>) -> Seq<char>;

/// `heck::ToSnakeCase::to_snake_case` for `str`: the result depends on the
/// text alone.
#[verifier::external_body]
fn snake_case(s: &str) -> (r: String)
    ensures
        r@ == heck_snake_case(s@),
{
    heck::ToSnakeCase::to_snake_case(s)
}

/// The file `b` with the block of the definition with the header `p` set
/// to `body`: in place where `b` holds such a block, else by `block` added
/// at the end.
pub open spec fn upserted(b: Seq<u8>, p: Seq<u8>, body: Seq<u8>, block: Seq<u8>) -> Seq<u8> {
    if exists|start: int, end: int| block_range(b, p, start, end) {
        let (start, end) = choose|start: int, end: int| block_range(b, p, start, end);
        block_replaced(b, start, end, body)
    } else {
        block_appended(b, block)
    }
}

/// Sets the block of the definition with the header `header` to `body`.
pub fn upsert_block(content: String, header: &str, body: &str, block: &str) -> (r: String)
    ensures
        encode_utf8(r@) == upserted(
            encode_utf8(content@),
            header.spec_bytes(),
            body.spec_bytes(),
            block.spec_bytes(),
        ),
{
    let make = || -> (made: String)
        ensures
            made@ == block@,
        { String::from_str(block) };
    let r = replace_or_append_block(content, header, body, make);
    proof {
        let b = encode_utf8(content@);
        let p = header.spec_bytes();
        if exists|start: int, end: int| block_range(b, p, start, end) {
            let (start, end) = choose|start: int, end: int| block_range(b, p, start, end);
            assert(block_range(b, p, start, end));
        } else {
            assert(forall|start: int, end: int| !block_range(b, p, start, end));
        }
    }
    r
}

/// The line of a schema file in the index of schema files.
pub open spec fn export_line(global: Seq<char>, file: Seq<char>) -> Seq<char> {
    "export { "@ + global + " } from \""@ + file + "\";"@
}

/// The index of schema files with the line of one more file. The index
/// is left as it is, and nothing is to be written, where it holds the
/// line already.
pub open spec fn index_updated(b: Seq<u8>, line: Seq<u8>) -> Option<Seq<u8>> {
    if exists|j: int| matches_at(b, line, j) {
        None
    } else {
        let end_line: Seq<u8> = if b.len() > 0 && b.last() != NEWLINE {
            seq![NEWLINE]
        } else {
            Seq::empty()
        };
        Some(b + end_line + line + seq![NEWLINE])
    }
}

/// The index of schema files with the line that exports the global
/// `global_name` from the file `file_name`: the text to write, or nothing
/// where the index holds the line already.
pub fn update_index_slint(index_content: String, global_name: &str, file_name: &str) -> (r: Option<String>)
    ensures
        match index_updated(
            encode_utf8(index_content@),
            encode_utf8(export_line(global_name@, file_name@)),
        ) {
            Some(bytes) => r is Some && encode_utf8(r->0@) == bytes,
            None => r is None,
        },
{
    let mut line = String::from_str("export { ");
    line.append(global_name);
    line.append(" } from \"");
    line.append(file_name);
    line.append("\";");
    let found = find_pattern(index_content.as_str().as_bytes(), line.as_str().as_bytes());
    if found.is_some() {
        assert(matches_at(encode_utf8(index_content@), encode_utf8(line@), found->0 as int));
        return None;
    }
    let mut out = index_content;
    let bytes = out.as_str().as_bytes();
    let n = bytes.len();
    let ghost start = out@;
    if n > 0 && bytes[n - 1] != NEWLINE {
        out.append("\n");
    }
    let ghost mid = out@;
    out.append(line.as_str());
    out.append("\n");
    proof {
        reveal_strlit("\n");
        assert("\n"@ =~= seq!['\n']);
        lemma_encode_single('\n');
        lemma_encode_concat(start, "\n"@);
        lemma_encode_concat(mid, line@);
        lemma_encode_concat(mid + line@, "\n"@);
        let b = encode_utf8(start);
        let l = encode_utf8(line@);
        let end_line: Seq<u8> = if b.len() > 0 && b.last() != NEWLINE {
            seq![NEWLINE]
        } else {
            Seq::empty()
        };
        assert(encode_utf8(out@) =~= b + end_line + l + seq![NEWLINE]);
    }
    Some(out)
}


/// The name of a global without the ending `Global`, if it has that
/// ending: the name that its schema file goes by.
pub open spec fn file_base(name: Seq<u8>) -> Seq<u8> {
    let ending = encode_utf8("Global"@);
    if matches_at(name, ending, name.len() - ending.len()) {
        name.subrange(0, name.len() - ending.len())
    } else {
        name
    }
}

/// The name of a global without the ending `Global`.
pub fn strip_global(name: &str) -> (base: &str)
    ensures
        base.spec_bytes() == file_base(name.spec_bytes()),
{
    let b = name.as_bytes();
    let ending = "Global".as_bytes();
    if ends_with(b, ending) {
        proof {
            reveal_strlit("Global");
            assert("Global"@ =~= seq!['G', 'l', 'o', 'b', 'a', 'l']);
            assert(is_ascii_chars("Global"@));
            vstd::utf8::is_ascii_chars_encode_utf8("Global"@);
            let at = b@.len() - ending@.len();
            assert(b@.subrange(at, at + ending@.len())[0] == b@[at]);
            assert(b@[at] == 'G' as u8);
            vstd::utf8::encode_utf8_valid_utf8(name@);
            vstd::utf8::is_char_boundary_iff_not_is_continuation_byte(b@, at);
        }
        let (base, _) = name.split_at(b.len() - ending.len());
        base
    } else {
        name
    }
}

/// The schema file `b` with the three definitions of `parts` set: the
/// struct of a row, the global, and the component.
pub open spec fn file_updated(
    b: Seq<u8>,
    parts: (Seq<char>, Seq<char>, Seq<char>, Seq<char>, Seq<char>, Seq<char>),
) -> Seq<u8> {
    let with_struct = upserted(
        b,
        encode_utf8("export struct "@ + parts.0),
        encode_utf8(parts.1),
        encode_utf8(definition("export struct "@, parts.0, " {\n"@, parts.1)),
    );
    let with_global = upserted(
        with_struct,
        encode_utf8("export global "@ + parts.2),
        encode_utf8(parts.3),
        encode_utf8(definition("export global "@, parts.2, " {\n"@, parts.3)),
    );
    upserted(
        with_global,
        encode_utf8("export component "@ + parts.4),
        encode_utf8(parts.5),
        encode_utf8(definition("export component "@, parts.4, " inherits Rectangle {\n"@, parts.5)),
    )
}

/// The text of the schema file of a model, given what the file holds so
/// far: each of the three definitions is set in place where the file has
/// it, and added at the end where it has not. What else the file holds
/// stays.
pub fn update_slint_file(input: &SlintModel, content: String) -> (r: String)
    ensures
        encode_utf8(r@) == file_updated(encode_utf8(content@), code_components(*input)),
{
    let parts = generate_code_components(input);
    let mut struct_header = String::from_str("export struct ");
    struct_header.append(parts.0.as_str());
    let struct_block = define("export struct ", parts.0.as_str(), " {\n", parts.1.as_str());
    let content = upsert_block(
        content,
        struct_header.as_str(),
        parts.1.as_str(),
        struct_block.as_str(),
    );
    let mut global_header = String::from_str("export global ");
    global_header.append(parts.2.as_str());
    let global_block = define("export global ", parts.2.as_str(), " {\n", parts.3.as_str());
    let content = upsert_block(
        content,
        global_header.as_str(),
        parts.3.as_str(),
        global_block.as_str(),
    );
    let mut component_header = String::from_str("export component ");
    component_header.append(parts.4.as_str());
    let component_block = define(
        "export component ",
        parts.4.as_str(),
        " inherits Rectangle {\n",
        parts.5.as_str(),
    );
    upsert_block(content, component_header.as_str(), parts.5.as_str(), component_block.as_str())
}

/// The name of a schema file with the stem `stem`.
pub fn slint_file_name(stem: &str) -> (r: String)
    ensures
        r@ == stem@ + ".slint"@,
{
    let mut out = String::from_str(stem);
    out.append(".slint");
    out
}

/// The schema file of a model: its name, which is the snake case spelling
/// of the global's name without the ending `Global`, and its text, given
/// what the file holds so far.
pub fn generate_slint_file(input: &SlintModel, content: String) -> (r: (String, String))
    ensures
        exists|base: Seq<char>|
            encode_utf8(base) == file_base(encode_utf8(input.global_name@)) && r.0@
                == heck_snake_case(base) + ".slint"@,
        encode_utf8(r.1@) == file_updated(encode_utf8(content@), code_components(*input)),
{
    let base = strip_global(input.global_name.as_str());
    let stem = snake_case(base);
    (slint_file_name(stem.as_str()), update_slint_file(input, content))
}

/// The schema file of a model, named in the spelling of
/// [`camel_to_snake`]: its name and its text, given what the file holds so
/// far.
pub fn generate_file(input: &SlintModel, content: String) -> (r: (String, String))
    ensures
        exists|base: Seq<char>|
            encode_utf8(base) == file_base(encode_utf8(input.global_name@)) && r.0@ == snake(base)
                + ".slint"@,
        encode_utf8(r.1@) == file_updated(encode_utf8(content@), code_components(*input)),
{
    let base = strip_global(input.global_name.as_str());
    let stem = camel_to_snake(base);
    (slint_file_name(stem.as_str()), update_slint_file(input, content))
}

} // verus!
