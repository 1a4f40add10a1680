use riscv_echo::echo::{collect_args, echo, join_line};
use riscv_echo::program::{run, ARENA_SIZE};
use riscv_echo::syscall::{EXIT_SUCCESS, SYS_EXIT, SYS_WRITE};

fn argv(args: &[&str]) -> Vec<Vec<u8>> {
    let mut v: Vec<Vec<u8>> = vec![b"/bin/echo".to_vec()];
    for a in args {
        v.push(a.as_bytes().to_vec());
    }
    v
}

fn strings(args: &[&str]) -> Vec<String> {
    args.iter().map(|a| String::from(*a)).collect()
}

#[test]
fn one_argument() {
    let done = run(&argv(&["hello"]));
    assert_eq!(done.output, "hello\n");
    assert_eq!(done.status, 0);
}

#[test]
fn two_arguments() {
    let done = run(&argv(&["hello", "world"]));
    assert_eq!(done.output, "hello world\n");
    assert_eq!(done.status, 0);
}

#[test]
fn no_arguments() {
    let done = run(&argv(&[]));
    assert_eq!(done.output, "\n");
    assert_eq!(done.output.as_bytes(), &[10u8]);
    assert_eq!(done.output.len(), 1);
    assert_eq!(done.status, 0);
}

#[test]
fn three_arguments() {
    let done = run(&argv(&["a", "b", "c"]));
    assert_eq!(done.output, "a b c\n");
    assert_eq!(done.status, 0);
}

#[test]
fn empty_vector_gives_newline() {
    let none: Vec<Vec<u8>> = Vec::new();
    assert_eq!(echo(&none), "\n");
    assert!(collect_args(&none).is_empty());
}

#[test]
fn program_path_is_left_out() {
    let args = collect_args(&argv(&["x", "y"]));
    assert_eq!(args, vec![String::from("x"), String::from("y")]);
    let other_path: Vec<Vec<u8>> = vec![b"./other".to_vec(), b"x".to_vec(), b"y".to_vec()];
    assert_eq!(echo(&other_path), echo(&argv(&["x", "y"])));
}

#[test]
fn arguments_keep_their_order_and_count() {
    let args = collect_args(&argv(&["3", "1", "2", "1"]));
    assert_eq!(args.len(), 4);
    assert_eq!(args, strings(&["3", "1", "2", "1"]));
}

#[test]
fn embedded_spaces_are_not_split() {
    assert_eq!(echo(&argv(&["a b", "c"])), "a b c\n");
    assert_eq!(collect_args(&argv(&["a b", "c"])).len(), 2);
}

#[test]
fn spaces_inside_arguments_are_kept() {
    assert_eq!(echo(&argv(&[" a", "b "])), " a b \n");
    assert_eq!(echo(&argv(&[" "])), " \n");
}

#[test]
fn empty_arguments_still_get_separators() {
    assert_eq!(echo(&argv(&["", ""])), " \n");
    assert_eq!(echo(&argv(&["a", "", "b"])), "a  b\n");
    assert_eq!(echo(&argv(&[""])), "\n");
}

#[test]
fn no_space_at_either_end() {
    let out = echo(&argv(&["first", "mid", "last"]));
    assert!(out.starts_with("first"));
    assert!(out.ends_with("last\n"));
    assert_eq!(out.len(), 5 + 3 + 4 + 2 + 1);
}

#[test]
fn exactly_one_newline_at_the_end() {
    let out = echo(&argv(&["a", "b"]));
    assert_eq!(out.matches('\n').count(), 1);
    assert!(out.ends_with('\n'));
}

#[test]
fn newline_inside_an_argument_is_kept() {
    assert_eq!(echo(&argv(&["a\nb"])), "a\nb\n");
}

#[test]
fn ill_formed_bytes_are_replaced() {
    let v: Vec<Vec<u8>> = vec![b"echo".to_vec(), vec![0xff], vec![b'o', b'k']];
    let done = run(&v);
    assert_eq!(done.output, "\u{FFFD} ok\n");
    assert_eq!(done.status, 0);
}

#[test]
fn ill_formed_bytes_inside_text_are_replaced() {
    let v: Vec<Vec<u8>> = vec![b"echo".to_vec(), vec![b'a', 0xC3, b'b']];
    assert_eq!(echo(&v), "a\u{FFFD}b\n");
    let args = collect_args(&v);
    assert_eq!(args, vec![String::from("a\u{FFFD}b")]);
    assert_ne!(args[0].as_bytes(), &v[1][..]);
}

#[test]
fn well_formed_text_is_decoded_as_it_is() {
    let out = echo(&argv(&["gr\u{fc}\u{df}", "\u{4e16}\u{754c}"]));
    assert_eq!(out, "gr\u{fc}\u{df} \u{4e16}\u{754c}\n");
    assert_eq!(out.as_bytes(), "gr\u{fc}\u{df} \u{4e16}\u{754c}\n".as_bytes());
}

#[test]
fn same_arguments_same_bytes() {
    let v = argv(&["one", "two words", "3"]);
    let first = run(&v);
    let second = run(&v.clone());
    assert_eq!(first.output.as_bytes(), second.output.as_bytes());
    assert_eq!(first.status, second.status);
}

#[test]
fn status_is_success_whatever_the_arguments() {
    assert_eq!(run(&argv(&[])).status, EXIT_SUCCESS);
    assert_eq!(run(&argv(&["a"])).status, EXIT_SUCCESS);
    let bad: Vec<Vec<u8>> = vec![vec![], vec![0x80, 0x80], vec![0xf0]];
    assert_eq!(run(&bad).status, EXIT_SUCCESS);
    assert_eq!(EXIT_SUCCESS, 0);
}

#[test]
fn join_line_of_nothing() {
    let none: Vec<String> = Vec::new();
    assert_eq!(join_line(&none), "\n");
}

#[test]
fn join_line_of_one() {
    assert_eq!(join_line(&strings(&["solo"])), "solo\n");
}

#[test]
fn join_line_of_many() {
    assert_eq!(join_line(&strings(&["a", "b", "c", "d"])), "a b c d\n");
}

#[test]
fn join_line_does_not_change_its_arguments() {
    let args = strings(&["k", "l"]);
    let out = join_line(&args);
    assert_eq!(out, "k l\n");
    assert_eq!(args, strings(&["k", "l"]));
}

#[test]
fn write_call_covers_the_whole_output() {
    let done = run(&argv(&["hello", "world"]));
    let trap = done.write_call(0x1000);
    assert_eq!(trap.a7, SYS_WRITE);
    assert_eq!(trap.a0, 1);
    assert_eq!(trap.a1, 0x1000);
    assert_eq!(trap.a2, 12);
    assert_eq!((trap.a3, trap.a4, trap.a5, trap.a6), (0, 0, 0, 0));
}

#[test]
fn write_call_counts_bytes_not_characters() {
    let done = run(&argv(&["\u{e9}"]));
    assert_eq!(done.output.chars().count(), 2);
    assert_eq!(done.write_call(8).a2, 3);
}

#[test]
fn exit_call_carries_the_status() {
    let done = run(&argv(&["x"]));
    let trap = done.exit_call();
    assert_eq!(trap.a7, SYS_EXIT);
    assert_eq!(trap.a0, 0);
}

#[test]
fn arena_is_one_kibibyte() {
    assert_eq!(ARENA_SIZE, 1024);
}

#[test]
fn agrees_with_the_standard_join() {
    let cases: Vec<Vec<&str>> = vec![
        vec![],
        vec![""],
        vec!["", "", ""],
        vec!["-n", "x"],
        vec!["tab\there", "quote\"d", "back\\slash"],
        vec!["\u{1F600}", "\u{0}", "~"],
    ];
    for case in cases {
        let mut expected = case.join(" ");
        expected.push('\n');
        assert_eq!(join_line(&strings(&case)), expected);
        assert_eq!(echo(&argv(&case)), expected);
    }
}

#[test]
fn options_are_not_interpreted() {
    assert_eq!(echo(&argv(&["-n", "-e", "--help"])), "-n -e --help\n");
}

#[test]
fn truncated_sequence_at_the_end_is_replaced() {
    let v: Vec<Vec<u8>> = vec![Vec::new(), vec![b'x', 0xE4, 0xB8]];
    assert_eq!(echo(&v), "x\u{FFFD}\n");
}

#[test]
fn many_arguments() {
    let words: Vec<String> = (0..200).map(|n| format!("w{}", n)).collect();
    let refs: Vec<&str> = words.iter().map(|w| w.as_str()).collect();
    let out = echo(&argv(&refs));
    assert_eq!(out.matches(' ').count(), 199);
    assert!(out.starts_with("w0 w1 "));
    assert!(out.ends_with(" w199\n"));
}
