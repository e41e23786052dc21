use fak::local::{build_prompt, clean_response, plan_prompt_batch, Generation, MAX_OUTPUT_TOKENS};

#[test]
fn prompt_has_examples_and_command() {
    let p = build_prompt("gti status", "PRE");
    let expected = [
        "<|im_start|>system\nPRE<|im_end|>\n",
        "<|im_start|>user\nInput: ggit status<|im_end|>\n",
        "<|im_start|>assistant\ngit status<|im_end|>\n",
        "<|im_start|>user\nInput: crago check<|im_end|>\n",
        "<|im_start|>assistant\ncargo check<|im_end|>\n",
        "<|im_start|>user\nInput: git stats<|im_end|>\n",
        "<|im_start|>assistant\ngit status<|im_end|>\n",
        "<|im_start|>user\nInput: gti status<|im_end|>\n",
        "<|im_start|>assistant\n",
    ]
    .concat();
    assert_eq!(p, expected);
}

#[test]
fn empty_prompt_is_an_error() {
    assert_eq!(plan_prompt_batch(0).err(), Some("The command prompt produced no tokens".to_string()));
}

#[test]
fn small_prompt_gets_minimum_batch() {
    let b = plan_prompt_batch(3).ok().unwrap();
    assert_eq!(b.token_count, 3);
    assert_eq!(b.capacity, 512);
    assert_eq!(b.last_position, 2);
    assert_eq!(b.entry(0), (0, false));
    assert_eq!(b.entry(2), (2, true));
}

#[test]
fn large_prompt_gets_its_own_size() {
    let b = plan_prompt_batch(600).ok().unwrap();
    assert_eq!(b.capacity, 600);
    assert_eq!(b.last_position, 599);
}

#[test]
fn prompt_positions_must_fit_i32() {
    let fits = plan_prompt_batch(i32::MAX as usize + 1).ok().unwrap();
    assert_eq!(fits.last_position, i32::MAX);
    assert_eq!(
        plan_prompt_batch(i32::MAX as usize + 2).err(),
        Some("The command prompt is too long for llama.cpp".to_string())
    );
}

#[test]
fn generation_collects_pieces_until_end() {
    let mut g = Generation::new(10);
    assert!(g.wants_token());
    assert_eq!(g.accept_token(false, "git"), Ok(Some(10)));
    assert_eq!(g.accept_token(false, " status"), Ok(Some(11)));
    assert!(g.wants_token());
    assert_eq!(g.accept_token(true, "ignored"), Ok(None));
    assert!(!g.wants_token());
    assert_eq!(g.into_command(), "git status");
}

#[test]
fn generation_stops_after_the_limit() {
    let mut g = Generation::new(0);
    let mut n = 0;
    while g.wants_token() {
        assert_eq!(g.accept_token(false, "a"), Ok(Some(n)));
        n += 1;
    }
    assert_eq!(n as usize, MAX_OUTPUT_TOKENS);
    assert_eq!(g.into_command(), "a".repeat(32));
}

#[test]
fn generated_position_must_fit_i32() {
    let mut g = Generation::new(i32::MAX as usize);
    assert_eq!(g.accept_token(false, "a"), Ok(Some(i32::MAX)));
    assert_eq!(
        g.accept_token(false, "b"),
        Err("The generated command is too long for llama.cpp".to_string())
    );
    assert!(!g.wants_token());
}

#[test]
fn clean_takes_text_after_thinking() {
    let r = "<think>hmm</think> a </think>\nOutput: `git status`";
    assert_eq!(clean_response(r.to_string()), "git status");
}

#[test]
fn clean_skips_introduction_lines() {
    let r = "Here's the corrected version:\n\n**ls -la**\nmore";
    assert_eq!(clean_response(r.to_string()), "ls -la");
}

#[test]
fn clean_cuts_after_corrected_command_label() {
    let r = "The corrected command: cargo build";
    assert_eq!(clean_response(r.to_string()), "cargo build");
}

#[test]
fn clean_takes_first_line() {
    let r = "  git status  \r\nsecond line";
    assert_eq!(clean_response(r.to_string()), "git status");
}

#[test]
fn clean_of_nothing_is_empty() {
    assert_eq!(clean_response(String::new()), "");
    assert_eq!(clean_response("\n  \n".to_string()), "");
    assert_eq!(clean_response("HERE'S THE CORRECTED".to_string()), "");
}
