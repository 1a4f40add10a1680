//! What holds of every echoed line.

use vstd::prelude::*;
use vstd::utf8::*;
use crate::echo::{
    decoded_args, echo_text, encoded, joined, line, line_bytes, raw_args, well_formed,
};

verus! {

/// The number of items in all of `args` together.
pub open spec fn total_len<T>(args: Seq<Seq<T>>) -> nat
    decreases args.len(),
{
    if args.len() == 0 {
        0
    } else {
        total_len(args.drop_last()) + args.last().len()
    }
}

/// Where argument `i` begins in what is joined from `args`: after all the
/// arguments before it and one separator for each of them.
pub open spec fn offset_of<T>(args: Seq<Seq<T>>, i: int) -> int {
    total_len(args.take(i)) + i
}

/// Joining is compositional: two non-empty runs of arguments, joined each
/// for itself, meet with exactly one separator between them.
pub proof fn lemma_joined_concat<T>(a: Seq<Seq<T>>, b: Seq<Seq<T>>, sep: T)
    requires
        a.len() >= 1,
        b.len() >= 1,
    ensures
        joined(a + b, sep) == joined(a, sep).push(sep) + joined(b, sep),
    decreases b.len(),
{
    if b.len() == 1 {
        assert((a + b).drop_last() =~= a);
        assert(joined(a + b, sep) =~= joined(a, sep).push(sep) + joined(b, sep));
    } else {
        lemma_joined_concat(a, b.drop_last(), sep);
        assert((a + b).drop_last() =~= a + b.drop_last());
        assert(joined(a + b, sep) =~= joined(a, sep).push(sep) + joined(b, sep));
    }
}

/// What is joined from one or more arguments has the items of the
/// arguments and one separator for each argument but the last: nothing is
/// added and nothing is lost.
pub proof fn lemma_joined_length<T>(args: Seq<Seq<T>>, sep: T)
    requires
        args.len() >= 1,
    ensures
        joined(args, sep).len() == total_len(args) + args.len() - 1,
    decreases args.len(),
{
    if args.len() == 1 {
        assert(args.drop_last().len() == 0);
        assert(total_len(args.drop_last()) == 0);
    } else {
        lemma_joined_length(args.drop_last(), sep);
    }
}

/// The line of one or more arguments is as long as the arguments together,
/// plus one for each argument: its separator or, for the last, the newline.
pub proof fn lemma_line_length(args: Seq<Seq<char>>)
    requires
        args.len() >= 1,
    ensures
        line(args).len() == total_len(args) + args.len(),
{
    lemma_joined_length(args, ' ');
}

/// Every argument stands in what is joined as it is, in one piece, at its
/// offset; and but for the first, a separator stands right before it.
pub proof fn lemma_joined_layout<T>(args: Seq<Seq<T>>, sep: T, i: int)
    requires
        0 <= i < args.len(),
    ensures
        0 <= offset_of(args, i),
        offset_of(args, i) + args[i].len() <= joined(args, sep).len(),
        joined(args, sep).subrange(offset_of(args, i), offset_of(args, i) + args[i].len())
            == args[i],
        i > 0 ==> joined(args, sep)[offset_of(args, i) - 1] == sep,
    decreases args.len(),
{
    let whole = joined(args, sep);
    let at = offset_of(args, i);
    let front = args.drop_last();
    lemma_joined_length(args, sep);
    if i == args.len() - 1 {
        assert(args.take(i) =~= front);
        if i > 0 {
            lemma_joined_length(front, sep);
        } else {
            assert(total_len(front) == 0);
        }
        assert(whole.subrange(at, at + args[i].len()) =~= args[i]);
    } else {
        lemma_joined_layout(front, sep, i);
        lemma_joined_length(front, sep);
        assert(args.take(i) =~= front.take(i));
        assert(front[i] == args[i]);
        assert(whole.subrange(at, at + args[i].len()) =~= joined(front, sep).subrange(
            at,
            at + args[i].len(),
        ));
    }
}

/// Every argument stands in the line as it is, in one piece, wherever its
/// own spaces are: at its offset, after a space unless it is the first, and
/// the newline is the last character of the line.
pub proof fn lemma_line_layout(args: Seq<Seq<char>>, i: int)
    requires
        0 <= i < args.len(),
    ensures
        0 <= offset_of(args, i),
        offset_of(args, i) + args[i].len() < line(args).len(),
        line(args).subrange(offset_of(args, i), offset_of(args, i) + args[i].len()) == args[i],
        i > 0 ==> line(args)[offset_of(args, i) - 1] == ' ',
        line(args).last() == '\n',
{
    let at = offset_of(args, i);
    lemma_joined_layout(args, ' ', i);
    assert(line(args).subrange(at, at + args[i].len()) =~= joined(args, ' ').subrange(
        at,
        at + args[i].len(),
    ));
}

/// What is joined from one or more arguments begins with the first of them
/// and ends with the last: the join puts no separator before the first or
/// after the last.
pub proof fn lemma_joined_edges<T>(args: Seq<Seq<T>>, sep: T)
    requires
        args.len() >= 1,
    ensures
        args[0].is_prefix_of(joined(args, sep)),
        args.last().is_suffix_of(joined(args, sep)),
    decreases args.len(),
{
    let whole = joined(args, sep);
    if args.len() == 1 {
        assert(whole.subrange(0, args[0].len() as int) =~= args[0]);
        assert(whole.subrange(whole.len() - args.last().len(), whole.len() as int) =~= args.last());
    } else {
        let front = args.drop_last();
        lemma_joined_edges(front, sep);
        assert(front[0] == args[0]);
        assert(whole.subrange(0, args[0].len() as int) =~= joined(front, sep).subrange(
            0,
            args[0].len() as int,
        ));
        assert(whole.subrange(whole.len() - args.last().len(), whole.len() as int) =~= args.last());
    }
}

/// The line of one or more arguments begins with the first argument and ends
/// with the last argument and the newline.
pub proof fn lemma_line_edges(args: Seq<Seq<char>>)
    requires
        args.len() >= 1,
    ensures
        args[0].is_prefix_of(line(args)),
        args.last().push('\n').is_suffix_of(line(args)),
{
    let whole = line(args);
    let tail = args.last().push('\n');
    lemma_joined_edges(args, ' ');
    assert(whole.subrange(0, args[0].len() as int) =~= joined(args, ' ').subrange(
        0,
        args[0].len() as int,
    ));
    assert(whole.subrange(whole.len() - tail.len(), whole.len() as int) =~= joined(args, ' ').subrange(
        joined(args, ' ').len() - args.last().len(),
        joined(args, ' ').len() as int,
    ).push('\n'));
}

/// Encoding distributes over concatenation: the bytes of two texts in a row
/// are the bytes of the first, then the bytes of the second.
pub proof fn lemma_encode_concat(a: Seq<char>, b: Seq<char>)
    ensures
        encode_utf8(a + b) == encode_utf8(a) + encode_utf8(b),
    decreases a.len(),
{
    if a.len() == 0 {
        assert(a + b =~= b);
        assert(encode_utf8(a) + encode_utf8(b) =~= encode_utf8(b));
    } else {
        lemma_encode_concat(a.drop_first(), b);
        assert((a + b).drop_first() =~= a.drop_first() + b);
        assert(encode_utf8(a + b) =~= encode_utf8(a) + encode_utf8(b));
    }
}

/// A text of one ASCII character encodes as the one byte of that character.
proof fn lemma_encode_ascii(c: char)
    requires
        c <= '\u{7f}',
    ensures
        encode_utf8(seq![c]) == seq![c as u8],
{
    let one = seq![c];
    assert(is_ascii_chars(one));
    is_ascii_chars_encode_utf8(one);
    assert(one[0] as u8 == encode_utf8(one)[0]);
    assert(encode_utf8(one) =~= seq![c as u8]);
}

/// The bytes of a line are the line of the bytes: encoding the echoed text
/// gives the encoded arguments, joined by single bytes 32 and ended by one
/// byte 10.
pub proof fn lemma_line_encoded(args: Seq<Seq<char>>)
    ensures
        encode_utf8(joined(args, ' ')) == joined(encoded(args), 32u8),
        encode_utf8(line(args)) == line_bytes(encoded(args)),
    decreases args.len(),
{
    lemma_encode_ascii(' ');
    lemma_encode_ascii('\n');
    assert(' ' as u8 == 32u8);
    assert('\n' as u8 == 10u8);
    if args.len() == 0 {
    } else if args.len() == 1 {
    } else {
        let front = args.drop_last();
        lemma_line_encoded(front);
        assert(encoded(args).drop_last() =~= encoded(front));
        assert(joined(front, ' ').push(' ') =~= joined(front, ' ') + seq![' ']);
        lemma_encode_concat(joined(front, ' '), seq![' ']);
        lemma_encode_concat(joined(front, ' ').push(' '), args.last());
        assert(encode_utf8(joined(args, ' ')) =~= joined(encoded(args), 32u8));
    }
    assert(line(args) =~= joined(args, ' ') + seq!['\n']);
    lemma_encode_concat(joined(args, ' '), seq!['\n']);
    assert(encode_utf8(line(args)) =~= line_bytes(encoded(args)));
}

/// Arguments that are well-formed UTF-8 pass through untouched: the bytes of
/// the echoed line are the bytes of the arguments, joined by single bytes 32
/// and ended by one byte 10.
pub proof fn lemma_echo_bytes(argv: Seq<Vec<u8>>)
    requires
        well_formed(argv),
    ensures
        encode_utf8(echo_text(argv)) == line_bytes(raw_args(argv)),
{
    let args = decoded_args(argv);
    assert forall|k: int| 0 <= k < args.len() implies encode_utf8(args[k]) == argv[k + 1]@ by {
        assert(valid_utf8(argv[k + 1]@));
        decode_utf8_encode_utf8(argv[k + 1]@);
    }
    assert(encoded(args) =~= raw_args(argv));
    lemma_line_encoded(args);
}

/// With no argument the line is the newline alone: one character, and in
/// UTF-8 the one byte 10.
pub proof fn lemma_line_of_nothing()
    ensures
        line(Seq::empty()) == seq!['\n'],
        encode_utf8(line(Seq::empty())) == seq![10u8],
{
    assert(line(Seq::empty()) =~= seq!['\n']);
    lemma_encode_ascii('\n');
    assert('\n' as u8 == 10u8);
}

/// An argument vector that holds at most the program's path echoes as the
/// newline alone.
pub proof fn lemma_echo_of_nothing(argv: Seq<Vec<u8>>)
    requires
        argv.len() <= 1,
    ensures
        echo_text(argv) == seq!['\n'],
{
    assert(decoded_args(argv) =~= Seq::empty());
    lemma_line_of_nothing();
}

/// Two argument vectors that hold the same bytes echo as the same line,
/// character for character and byte for byte. The program's path, at
/// index 0, may differ.
pub proof fn lemma_echo_repeatable(first: Seq<Vec<u8>>, second: Seq<Vec<u8>>)
    requires
        first.len() == second.len(),
        forall|i: int| 1 <= i < first.len() ==> first[i]@ == second[i]@,
    ensures
        echo_text(first) == echo_text(second),
        encode_utf8(echo_text(first)) == encode_utf8(echo_text(second)),
{
    assert(decoded_args(first) =~= decoded_args(second));
}

} // verus!
