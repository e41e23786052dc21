use vstd::prelude::*;
use crate::text::{
    lemma_absent_from_subrange, lemma_lower_subrange, lemma_trim_is_subrange,
    lemma_trim_idempotent,
    CharClass, after_first, after_first_of, after_last, after_last_of, ascii_lower,
    ascii_lowercase, chars_of, find, find_seq, lines_of, split_lines, string_of, trim, trim_by,
    trim_chars,
};

verus! {

/// The most pieces the embedded model may add to its answer.
pub const MAX_OUTPUT_TOKENS: usize = 32;

/// The context size given to the embedded model.
pub const CONTEXT_SIZE: u32 = 1024;

/// The smallest batch that holds the prompt.
pub const MIN_BATCH: usize = 512;

/// The chat prompt for the embedded model: the instructions `preamble`, three
/// worked examples, then the command `cmd`.
pub open spec fn prompt_text(cmd: Seq<char>, preamble: Seq<char>) -> Seq<char> {
    "<|im_start|>system\n"@ + preamble
        + "<|im_end|>\n<|im_start|>user\nInput: ggit status<|im_end|>\n<|im_start|>assistant\ngit status<|im_end|>\n<|im_start|>user\nInput: crago check<|im_end|>\n<|im_start|>assistant\ncargo check<|im_end|>\n<|im_start|>user\nInput: git stats<|im_end|>\n<|im_start|>assistant\ngit status<|im_end|>\n<|im_start|>user\nInput: "@
        + cmd + "<|im_end|>\n<|im_start|>assistant\n"@
}

/// Writes the prompt that asks the embedded model to correct `cmd`.
pub fn build_prompt(cmd: &str, preamble: &str) -> (p: String)
    ensures
        p@ == prompt_text(cmd@, preamble@),
{
    let mut p = String::from_str("<|im_start|>system\n");
    p.append(preamble);
    p.append(
        "<|im_end|>\n<|im_start|>user\nInput: ggit status<|im_end|>\n<|im_start|>assistant\ngit status<|im_end|>\n<|im_start|>user\nInput: crago check<|im_end|>\n<|im_start|>assistant\ncargo check<|im_end|>\n<|im_start|>user\nInput: git stats<|im_end|>\n<|im_start|>assistant\ngit status<|im_end|>\n<|im_start|>user\nInput: ",
    );
    p.append(cmd);
    p.append("<|im_end|>\n<|im_start|>assistant\n");
    p
}

/// How the prompt's tokens are laid out in the first batch: their number, the
/// batch's capacity and the position of the last token, the only one whose
/// logits are wanted.
pub struct PromptBatch {
    pub token_count: usize,
    pub capacity: usize,
    pub last_position: i32,
}

impl PromptBatch {
    /// The batch describes a prompt of at least one token.
    pub open spec fn wf(&self) -> bool {
        &&& self.token_count >= 1
        &&& self.last_position == self.token_count - 1
        &&& self.capacity == if self.token_count < MIN_BATCH {
            MIN_BATCH
        } else {
            self.token_count
        }
    }

    /// The position of the prompt token at `index` and whether its logits are wanted.
    pub fn entry(&self, index: usize) -> (e: (i32, bool))
        requires
            self.wf(),
            index < self.token_count,
        ensures
            e.0 == index,
            e.1 == (index == self.token_count - 1),
    {
        let position = index as i32;
        (position, position == self.last_position)
    }
}

/// The error when the prompt has no tokens.
pub open spec fn no_tokens_message() -> Seq<char> {
    "The command prompt produced no tokens"@
}

/// The error when a prompt position does not fit llama.cpp's `i32` positions.
pub open spec fn prompt_too_long_message() -> Seq<char> {
    "The command prompt is too long for llama.cpp"@
}

/// The error when a generated position does not fit llama.cpp's `i32` positions.
pub open spec fn generated_too_long_message() -> Seq<char> {
    "The generated command is too long for llama.cpp"@
}

/// Lays out a prompt of `token_count` tokens: an error for an empty prompt or
/// one whose last position exceeds `i32::MAX`.
pub fn plan_prompt_batch(token_count: usize) -> (r: Result<PromptBatch, String>)
    ensures
        token_count == 0 ==> (r matches Err(e) && e@ == no_tokens_message()),
        token_count > 0 && token_count - 1 > i32::MAX ==> (r matches Err(e) && e@
            == prompt_too_long_message()),
        token_count > 0 && token_count - 1 <= i32::MAX ==> (r matches Ok(b) && b.wf()
            && b.token_count == token_count),
{
    if token_count == 0 {
        return Err(String::from_str("The command prompt produced no tokens"));
    }
    let last = token_count - 1;
    if last > i32::MAX as usize {
        return Err(String::from_str("The command prompt is too long for llama.cpp"));
    }
    let capacity = if token_count < MIN_BATCH {
        MIN_BATCH
    } else {
        token_count
    };
    Ok(PromptBatch { token_count, capacity, last_position: last as i32 })
}

/// The marker after which a reasoning model gives its answer.
pub open spec fn think_end() -> Seq<char> {
    "</think>"@
}

/// The label some answers put before the command.
pub open spec fn output_label() -> Seq<char> {
    "Output:"@
}

/// Another label some answers put before the command.
pub open spec fn corrected_label() -> Seq<char> {
    "corrected command:"@
}

/// The phrase of a line that introduces the command rather than being it.
pub open spec fn corrected_phrase() -> Seq<char> {
    "here's the corrected"@
}

/// A trimmed line can be the answer: it is not empty and, in ASCII lowercase,
/// does not hold the phrase "here's the corrected".
pub open spec fn acceptable_line(t: Seq<char>) -> bool {
    t.len() > 0 && find(t.map_values(|c: char| ascii_lower(c)), corrected_phrase()) is None
}

/// The first line of `lines` that, trimmed, can be the answer, trimmed; empty
/// where there is none.
pub open spec fn first_acceptable(lines: Seq<Seq<char>>) -> Seq<char>
    decreases lines.len(),
{
    if lines.len() == 0 {
        Seq::empty()
    } else if acceptable_line(trim(lines[0])) {
        trim(lines[0])
    } else {
        first_acceptable(lines.drop_first())
    }
}

/// The command in the embedded model's answer `r`: the text after the last
/// `</think>`, trimmed, after `Output:` and then after `corrected command:`
/// where they occur; of that, the first line that can be the answer, with
/// backticks and asterisks and then whitespace trimmed from its ends.
pub open spec fn cleaned(r: Seq<char>) -> Seq<char> {
    let a = trim(after_last(r, think_end()));
    let b = after_first(after_first(a, output_label()), corrected_label());
    trim(trim_by(first_acceptable(lines_of(b)), CharClass::BacktickOrStar))
}

/// Takes the corrected command out of the embedded model's answer.
pub fn clean_response(response: String) -> (c: String)
    ensures
        c@ == cleaned(response@),
{
    let rc = chars_of(response.as_str());
    let a0 = after_last_of(&rc, &chars_of("</think>"));
    let a = trim_chars(&a0, CharClass::Whitespace);
    let b0 = after_first_of(&a, &chars_of("Output:"));
    let b = after_first_of(&b0, &chars_of("corrected command:"));
    let lines = split_lines(&b);
    let ghost all = lines.deep_view();
    let phrase = chars_of("here's the corrected");
    let mut chosen: Vec<char> = Vec::new();
    let n = lines.len();
    let mut i: usize = 0;
    proof {
        assert(all.skip(0) =~= all);
    }
    while i < n
        invariant_except_break
            chosen@ == Seq::<char>::empty(),
        invariant
            i <= n,
            n == lines@.len(),
            all == lines.deep_view(),
            phrase@ == corrected_phrase(),
            first_acceptable(all) == first_acceptable(all.skip(i as int)),
        ensures
            chosen@ == first_acceptable(all),
        decreases n - i,
    {
        let t = trim_chars(&lines[i], CharClass::Whitespace);
        proof {
            assert(all.skip(i as int)[0] == lines@[i as int]@);
            assert(all.skip(i as int).drop_first() =~= all.skip(i + 1));
        }
        if t.len() > 0 {
            let lower = ascii_lowercase(&t);
            if find_seq(&lower, &phrase).is_none() {
                proof {
                    assert(lower@ =~= t@.map_values(|c: char| ascii_lower(c)));
                }
                chosen = t;
                break;
            }
        }
        i = i + 1;
        proof {
            if i == n {
                assert(all.skip(i as int).len() == 0);
            }
        }
    }
    let c1 = trim_chars(&chosen, CharClass::BacktickOrStar);
    let c2 = trim_chars(&c1, CharClass::Whitespace);
    string_of(&c2)
}

/// The state of the embedded model's answer while it is generated: the
/// prompt's length, how many pieces were taken, whether it has ended, and the
/// text so far.
pub struct Generation {
    prompt_len: usize,
    produced: usize,
    finished: bool,
    response: String,
}

impl Generation {
    pub closed spec fn prompt_len(&self) -> nat {
        self.prompt_len as nat
    }

    pub closed spec fn produced(&self) -> nat {
        self.produced as nat
    }

    pub closed spec fn finished(&self) -> bool {
        self.finished
    }

    pub closed spec fn response(&self) -> Seq<char> {
        self.response@
    }

    /// No more than `MAX_OUTPUT_TOKENS` pieces are ever taken.
    #[verifier::type_invariant]
    spec fn bounded(&self) -> bool {
        self.produced <= MAX_OUTPUT_TOKENS
    }

    /// The start of an answer to a prompt of `prompt_len` tokens.
    pub fn new(prompt_len: usize) -> (g: Generation)
        ensures
            g.prompt_len() == prompt_len,
            g.produced() == 0,
            !g.finished(),
            g.response() == Seq::<char>::empty(),
    {
        Generation { prompt_len, produced: 0, finished: false, response: String::new() }
    }

    /// Whether the model is asked for another token: the answer has not ended
    /// and fewer than `MAX_OUTPUT_TOKENS` pieces were taken.
    pub fn wants_token(&self) -> (b: bool)
        ensures
            b == (!self.finished() && self.produced() < MAX_OUTPUT_TOKENS),
            self.produced() <= MAX_OUTPUT_TOKENS,
    {
        proof {
            use_type_invariant(self);
        }
        !self.finished && self.produced < MAX_OUTPUT_TOKENS
    }

    /// Takes the next token: an end-of-generation token ends the answer;
    /// another one adds its text `piece` and gives the position at which it is
    /// fed back to the model, the prompt's length plus the number of pieces taken
    /// before it, or an error where that position exceeds `i32::MAX`.
    pub fn accept_token(&mut self, is_end: bool, piece: &str) -> (r: Result<Option<i32>, String>)
        requires
            !old(self).finished(),
            old(self).produced() < MAX_OUTPUT_TOKENS,
        ensures
            final(self).prompt_len() == old(self).prompt_len(),
            is_end ==> {
                &&& r matches Ok(None)
                &&& final(self).finished()
                &&& final(self).produced() == old(self).produced()
                &&& final(self).response() == old(self).response()
            },
            !is_end ==> final(self).response() == old(self).response() + piece@,
            !is_end && old(self).prompt_len() + old(self).produced() <= i32::MAX ==> {
                &&& r matches Ok(Some(p)) && p == old(self).prompt_len() + old(self).produced()
                &&& !final(self).finished()
                &&& final(self).produced() == old(self).produced() + 1
            },
            !is_end && old(self).prompt_len() + old(self).produced() > i32::MAX ==> {
                &&& r matches Err(e) && e@ == generated_too_long_message()
                &&& final(self).finished()
            },
    {
        if is_end {
            self.finished = true;
            return Ok(None);
        }
        let mut text = self.response.clone();
        text.append(piece);
        self.response = text;
        let position: u128 = self.prompt_len as u128 + self.produced as u128;
        if position > i32::MAX as u128 {
            self.finished = true;
            return Err(String::from_str("The generated command is too long for llama.cpp"));
        }
        self.produced = self.produced + 1;
        Ok(Some(position as i32))
    }

    /// The corrected command in the answer generated so far.
    pub fn into_command(self) -> (c: String)
        ensures
            c@ == cleaned(self.response()),
    {
        clean_response(self.response)
    }
}

/// The command taken from the embedded model's answer has no whitespace at
/// its ends.
pub proof fn law_cleaned_is_trimmed(r: Seq<char>)
    ensures
        trim(cleaned(r)) == cleaned(r),
{
    let a = trim(after_last(r, think_end()));
    let b = after_first(after_first(a, output_label()), corrected_label());
    lemma_trim_idempotent(trim_by(first_acceptable(lines_of(b)), CharClass::BacktickOrStar), CharClass::Whitespace);
}

/// The line chosen from the answer is empty or, in ASCII lowercase, does not
/// hold the phrase "here's the corrected" anywhere.
proof fn lemma_chosen_line_lacks_phrase(lines: Seq<Seq<char>>)
    ensures
        find(first_acceptable(lines).map_values(|c: char| ascii_lower(c)), corrected_phrase()) is None,
    decreases lines.len(),
{
    reveal_strlit("here's the corrected");
    if lines.len() > 0 && !acceptable_line(trim(lines[0])) {
        lemma_chosen_line_lacks_phrase(lines.drop_first());
    }
}

/// The command taken from the embedded model's answer never holds the phrase
/// "here's the corrected", in any letter case of ASCII, at any position.
pub proof fn law_cleaned_never_holds_introduction(r: Seq<char>)
    ensures
        find(cleaned(r).map_values(|c: char| ascii_lower(c)), corrected_phrase()) is None,
{
    let a = trim(after_last(r, think_end()));
    let b = after_first(after_first(a, output_label()), corrected_label());
    let l = first_acceptable(lines_of(b));
    lemma_chosen_line_lacks_phrase(lines_of(b));
    let m = trim_by(l, CharClass::BacktickOrStar);
    lemma_trim_is_subrange(l, CharClass::BacktickOrStar);
    let (lo, hi) = choose|lo: int, hi: int| 0 <= lo <= hi <= l.len() && m == l.subrange(lo, hi);
    lemma_lower_subrange(l, lo, hi);
    lemma_absent_from_subrange(l.map_values(|c: char| ascii_lower(c)), corrected_phrase(), lo, hi);
    let c = trim(m);
    lemma_trim_is_subrange(m, CharClass::Whitespace);
    let (lo2, hi2) = choose|lo: int, hi: int| 0 <= lo <= hi <= m.len() && c == m.subrange(lo, hi);
    lemma_lower_subrange(m, lo2, hi2);
    lemma_absent_from_subrange(m.map_values(|c: char| ascii_lower(c)), corrected_phrase(), lo2, hi2);
}
/// The prompt starts with the instructions as given and ends with the command,
/// as given, after the last `Input: ` and before the end of its turn and the
/// opening of the model's turn.
pub proof fn law_prompt_holds_command_verbatim(cmd: Seq<char>, preamble: Seq<char>)
    ensures
        exists|x: Seq<char>| prompt_text(cmd, preamble) == x + "Input: "@ + cmd
            + "<|im_end|>\n<|im_start|>assistant\n"@,
        exists|y: Seq<char>| prompt_text(cmd, preamble) == "<|im_start|>system\n"@ + preamble + y,
{
    reveal_strlit("Input: ");
    reveal_strlit("<|im_end|>\n<|im_start|>user\nInput: ggit status<|im_end|>\n<|im_start|>assistant\ngit status<|im_end|>\n<|im_start|>user\nInput: crago check<|im_end|>\n<|im_start|>assistant\ncargo check<|im_end|>\n<|im_start|>user\nInput: git stats<|im_end|>\n<|im_start|>assistant\ngit status<|im_end|>\n<|im_start|>user\nInput: ");
    let p1 = "<|im_end|>\n<|im_start|>user\nInput: ggit status<|im_end|>\n<|im_start|>assistant\ngit status<|im_end|>\n<|im_start|>user\nInput: crago check<|im_end|>\n<|im_start|>assistant\ncargo check<|im_end|>\n<|im_start|>user\nInput: git stats<|im_end|>\n<|im_start|>assistant\ngit status<|im_end|>\n<|im_start|>user\nInput: "@;
    let tail = "<|im_end|>\n<|im_start|>assistant\n"@;
    let x = "<|im_start|>system\n"@ + preamble + p1.take(p1.len() - 7);
    assert(p1 =~= p1.take(p1.len() - 7) + "Input: "@);
    assert(prompt_text(cmd, preamble) =~= x + "Input: "@ + cmd + tail);
    assert(prompt_text(cmd, preamble) =~= "<|im_start|>system\n"@ + preamble + (p1 + cmd + tail));
}

} // verus!
