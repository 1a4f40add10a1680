//! The line that the arguments give: each decoded as text, all joined by
//! single spaces, one newline at the end.

use vstd::prelude::*;
use vstd::string::*;
use vstd::utf8::*;
use crate::laws::{lemma_echo_bytes, lemma_line_encoded};

verus! {

/// The text that lossy UTF-8 decoding makes of `bytes`: every well-formed
/// part decoded, every ill-formed part replaced by U+FFFD.
pub uninterp spec fn lossy_text(bytes: Seq<u8>) -> Seq<char>;

/// Calls `String::from_utf8_lossy` and takes the text as an owned string.
///
/// Believed, not proved: the text depends on the bytes alone, and bytes that
/// are well-formed UTF-8 decode to exactly the text they encode. Ill-formed
/// bytes never fail; what they give is known only by its name.
#[verifier::external_body]
fn decode_lossy(bytes: &[u8]) -> (text: String)
    ensures
        text@ == lossy_text(bytes@),
        valid_utf8(bytes@) ==> text@ == decode_utf8(bytes@),
{
    String::from_utf8_lossy(bytes).into_owned()
}

/// The UTF-8 encoding of each of `args`, in order.
pub open spec fn encoded(args: Seq<Seq<char>>) -> Seq<Seq<u8>> {
    Seq::new(args.len(), |i: int| encode_utf8(args[i]))
}

/// The texts of a sequence of strings, in order.
pub open spec fn texts(args: Seq<String>) -> Seq<Seq<char>> {
    Seq::new(args.len(), |i: int| args[i]@)
}

/// The text of one argument: what its bytes encode where they are well-formed
/// UTF-8, and what lossy decoding makes of them where they are not.
pub open spec fn arg_text(bytes: Seq<u8>) -> Seq<char> {
    if valid_utf8(bytes) {
        decode_utf8(bytes)
    } else {
        lossy_text(bytes)
    }
}

/// The arguments of an argument vector, decoded: everything but the entry at
/// index 0, which is the program's own path. An empty vector has none.
pub open spec fn decoded_args(argv: Seq<Vec<u8>>) -> Seq<Seq<char>> {
    Seq::new(
        if argv.len() == 0 {
            0nat
        } else {
            (argv.len() - 1) as nat
        },
        |i: int| arg_text(argv[i + 1]@),
    )
}

/// `args` with one `sep` between each two neighbours, and none elsewhere.
pub open spec fn joined<T>(args: Seq<Seq<T>>, sep: T) -> Seq<T>
    decreases args.len(),
{
    if args.len() == 0 {
        Seq::empty()
    } else if args.len() == 1 {
        args[0]
    } else {
        joined(args.drop_last(), sep).push(sep) + args.last()
    }
}

/// The output for `args`, as text: the arguments joined by single spaces,
/// then one newline.
pub open spec fn line(args: Seq<Seq<char>>) -> Seq<char> {
    joined(args, ' ').push('\n')
}

/// The output for `args`, as bytes: the arguments joined by single bytes 32,
/// then one byte 10.
pub open spec fn line_bytes(args: Seq<Seq<u8>>) -> Seq<u8> {
    joined(args, 32u8).push(10u8)
}

/// The arguments of an argument vector as they came, undecoded: everything
/// but the entry at index 0.
pub open spec fn raw_args(argv: Seq<Vec<u8>>) -> Seq<Seq<u8>> {
    Seq::new(
        if argv.len() == 0 {
            0nat
        } else {
            (argv.len() - 1) as nat
        },
        |i: int| argv[i + 1]@,
    )
}

/// Whether every argument of `argv` is well-formed UTF-8. The program's path
/// is not looked at.
pub open spec fn well_formed(argv: Seq<Vec<u8>>) -> bool {
    forall|i: int| 1 <= i < argv.len() ==> valid_utf8(#[trigger] argv[i]@)
}

/// The output for the argument vector `argv`.
pub open spec fn echo_text(argv: Seq<Vec<u8>>) -> Seq<char> {
    line(decoded_args(argv))
}

/// Decodes the arguments that follow the program's path, in order. Bytes
/// that are not UTF-8 are replaced, never refused.
pub fn collect_args(argv: &Vec<Vec<u8>>) -> (args: Vec<String>)
    ensures
        texts(args@) == decoded_args(argv@),
{
    let mut args: Vec<String> = Vec::new();
    let mut i: usize = 1;
    while i < argv.len()
        invariant
            1 <= i,
            argv.len() > 0 ==> i <= argv.len(),
            argv.len() > 0 ==> args.len() == i - 1,
            argv.len() == 0 ==> args.len() == 0,
            forall|k: int| 0 <= k < args.len() ==> args[k]@ == arg_text(#[trigger] argv[k + 1]@),
        decreases argv.len() - i,
    {
        let text = decode_lossy(argv[i].as_slice());
        args.push(text);
        i += 1;
    }
    assert(texts(args@) =~= decoded_args(argv@));
    args
}

/// Joins `args` with single spaces and ends the line.
pub fn join_line(args: &Vec<String>) -> (out: String)
    ensures
        out@ == line(texts(args@)),
        encode_utf8(out@) == line_bytes(encoded(texts(args@))),
{
    let ghost all = texts(args@);
    let mut out = String::new();
    let mut i: usize = 0;
    while i < args.len()
        invariant
            i <= args.len(),
            all == texts(args@),
            out@ == joined(all.take(i as int), ' '),
        decreases args.len() - i,
    {
        proof {
            reveal_strlit(" ");
            assert(all.take(i + 1).drop_last() =~= all.take(i as int));
            assert(all.take(i + 1).last() == args[i as int]@);
            assert(" "@ =~= seq![' ']);
        }
        if i > 0 {
            out.append(" ");
        }
        out.append(args[i].as_str());
        i += 1;
        assert(out@ =~= joined(all.take(i as int), ' '));
    }
    proof {
        reveal_strlit("\n");
        assert(all.take(args.len() as int) =~= all);
        assert("\n"@ =~= seq!['\n']);
    }
    out.append("\n");
    assert(out@ =~= line(all));
    proof {
        lemma_line_encoded(all);
    }
    out
}

/// The whole of it: from the argument vector to the line to be written.
/// Where every argument is well-formed UTF-8, the bytes of the line are the
/// bytes of the arguments, untouched, with the separators and the newline.
pub fn echo(argv: &Vec<Vec<u8>>) -> (out: String)
    ensures
        out@ == echo_text(argv@),
        well_formed(argv@) ==> encode_utf8(out@) == line_bytes(raw_args(argv@)),
{
    let args = collect_args(argv);
    proof {
        if well_formed(argv@) {
            lemma_echo_bytes(argv@);
        }
    }
    join_line(&args)
}

} // verus!
