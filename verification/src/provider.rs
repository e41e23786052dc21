use vstd::prelude::*;
use crate::text::{
    lemma_trim_idempotent,
    CharClass, chars_of, copy_range, find, find_seq, opt_view, same_chars, string_of,
    trim, trim_by, trim_chars, utf8_len, utf8_prefix_len, utf8_width,
    lemma_utf8_prefix_strictly_increasing, lemma_find_from_found,
};

verus! {

/// The model service that corrects a command.
#[derive(Clone, Copy, Debug, PartialEq, Eq, Structural)]
pub enum ProviderType {
    Nvidia,
    Gemini,
    Groq,
    Cerebras,
    Local,
}

/// What `str::to_lowercase` gives for a text (Unicode lowercase mapping).
pub uninterp spec fn lowercase_of(s: Seq<char>) -> Seq<char>;

/// `s` in lowercase.
///
/// Calls `str::to_lowercase`; the contract only names the result, as a function
/// of the text.
#[verifier::external_body]
pub(crate) fn to_lowercase(s: &str) -> (r: String)
    ensures
        r@ == lowercase_of(s@),
{
    s.to_lowercase()
}

/// The provider that a lowercased `FAK_PROVIDER` value selects: the named one,
/// `lfm` or `local` for the embedded model, and Gemini for any other value.
pub open spec fn provider_for(lowered: Seq<char>) -> ProviderType {
    if lowered == "nvidia"@ {
        ProviderType::Nvidia
    } else if lowered == "groq"@ {
        ProviderType::Groq
    } else if lowered == "cerebras"@ {
        ProviderType::Cerebras
    } else if lowered == "lfm"@ || lowered == "local"@ {
        ProviderType::Local
    } else {
        ProviderType::Gemini
    }
}

/// The provider that an already lowercased `FAK_PROVIDER` value selects.
pub fn provider_named(lowered: &str) -> (p: ProviderType)
    ensures
        p == provider_for(lowered@),
{
    let l = chars_of(lowered);
    if same_chars(&l, &chars_of("nvidia")) {
        ProviderType::Nvidia
    } else if same_chars(&l, &chars_of("groq")) {
        ProviderType::Groq
    } else if same_chars(&l, &chars_of("cerebras")) {
        ProviderType::Cerebras
    } else if same_chars(&l, &chars_of("lfm")) || same_chars(&l, &chars_of("local")) {
        ProviderType::Local
    } else {
        ProviderType::Gemini
    }
}

/// The provider selected by the value of `FAK_PROVIDER`: the embedded model where
/// it is not set, else the provider its lowercase form names.
pub open spec fn detected_provider(setting: Option<Seq<char>>) -> ProviderType {
    match setting {
        Some(s) => provider_for(lowercase_of(s)),
        None => ProviderType::Local,
    }
}

/// Selects the provider from the value of `FAK_PROVIDER`, where it is set.
pub fn detect_provider(setting: Option<&str>) -> (p: ProviderType)
    ensures
        p == detected_provider(opt_view(setting)),
{
    match setting {
        Some(s) => {
            let lowered = to_lowercase(s);
            provider_named(lowered.as_str())
        },
        None => ProviderType::Local,
    }
}

/// How a remote provider is configured: the variable that holds its API key, the
/// variable that can name the model, the default model and its display name.
pub struct RemoteSettings {
    pub key_var: String,
    pub model_var: String,
    pub default_model: String,
    pub label: String,
}

impl RemoteSettings {
    pub open spec fn view_tuple(&self) -> (Seq<char>, Seq<char>, Seq<char>, Seq<char>) {
        (self.key_var@, self.model_var@, self.default_model@, self.label@)
    }

    /// The error when the API key variable is not set.
    pub fn missing_key_message(&self) -> (m: String)
        ensures
            m@ == self.key_var@ + " environment variable is not set"@,
    {
        let mut m = String::from_str(self.key_var.as_str());
        m.append(" environment variable is not set");
        m
    }

    /// What to ask the provider with, from the values of its key and model
    /// variables where they are set: an error without a key, else the key and
    /// the model named (the default model where none is named).
    pub fn request(&self, api_key: Option<&str>, model: Option<&str>) -> (r: Result<RemoteRequest, String>)
        ensures
            api_key is None ==> (r matches Err(e) && e@ == self.key_var@ + " environment variable is not set"@),
            api_key matches Some(k) ==> (r matches Ok(q) && q.api_key@ == k@ && q.model@ == match model {
                Some(m) => m@,
                None => self.default_model@,
            }),
    {
        match api_key {
            None => Err(self.missing_key_message()),
            Some(k) => {
                let m = match model {
                    Some(m) => String::from_str(m),
                    None => self.default_model.clone(),
                };
                Ok(RemoteRequest { api_key: String::from_str(k), model: m })
            },
        }
    }
}

/// The key and the model that a remote provider is asked with.
pub struct RemoteRequest {
    pub api_key: String,
    pub model: String,
}

/// The settings of each remote provider; none for the embedded model.
pub open spec fn settings_for(p: ProviderType) -> Option<(Seq<char>, Seq<char>, Seq<char>, Seq<char>)> {
    match p {
        ProviderType::Nvidia => Some(("NVIDIA_API_KEY"@, "NVIDIA_MODEL"@, "google/gemma-4-31b-it"@, "Nvidia"@)),
        ProviderType::Cerebras => Some(("CEREBRAS_API_KEY"@, "CEREBRAS_MODEL"@, "llama3.1-8b"@, "Cerebras"@)),
        ProviderType::Gemini => Some(("GEMINI_API_KEY"@, "GEMINI_MODEL"@, "gemma-4-31b-it"@, "Gemini"@)),
        ProviderType::Groq => Some(("GROQ_API_KEY"@, "GROQ_MODEL"@, "llama-3.3-70b-versatile"@, "Groq"@)),
        ProviderType::Local => None,
    }
}

fn settings(key_var: &str, model_var: &str, default_model: &str, label: &str) -> (s: RemoteSettings)
    ensures
        s.view_tuple() == (key_var@, model_var@, default_model@, label@),
{
    RemoteSettings {
        key_var: String::from_str(key_var),
        model_var: String::from_str(model_var),
        default_model: String::from_str(default_model),
        label: String::from_str(label),
    }
}

impl ProviderType {
    /// The settings of a remote provider; `None` for the embedded model.
    pub fn remote_settings(&self) -> (r: Option<RemoteSettings>)
        ensures
            match r {
                Some(s) => settings_for(*self) == Some(s.view_tuple()),
                None => settings_for(*self) is None,
            },
    {
        match self {
            ProviderType::Nvidia => Some(settings("NVIDIA_API_KEY", "NVIDIA_MODEL", "google/gemma-4-31b-it", "Nvidia")),
            ProviderType::Cerebras => Some(settings("CEREBRAS_API_KEY", "CEREBRAS_MODEL", "llama3.1-8b", "Cerebras")),
            ProviderType::Gemini => Some(settings("GEMINI_API_KEY", "GEMINI_MODEL", "gemma-4-31b-it", "Gemini")),
            ProviderType::Groq => Some(settings("GROQ_API_KEY", "GROQ_MODEL", "llama-3.3-70b-versatile", "Groq")),
            ProviderType::Local => None,
        }
    }

    /// The instructions given to the model ahead of the command.
    pub fn preamble(&self) -> (s: &'static str)
        ensures
            s@ == (match *self {
                ProviderType::Local => "You are a command-line correction assistant. Correct the misspelled or incorrect CLI command. Respond ONLY with the corrected single command string. Do not use markdown, backticks, or explanations."@,
                _ => "You are a command-line correction assistant. The user will give you a misspelled or incorrect CLI command. Respond ONLY with the corrected single command string, with no markdown formatting, backticks, or explanation."@,
            }),
    {
        match self {
            ProviderType::Local => "You are a command-line correction assistant. Correct the misspelled or incorrect CLI command. Respond ONLY with the corrected single command string. Do not use markdown, backticks, or explanations.",
            _ => "You are a command-line correction assistant. The user will give you a misspelled or incorrect CLI command. Respond ONLY with the corrected single command string, with no markdown formatting, backticks, or explanation.",
        }
    }
}

/// The marker that a model may put before its answer, in lowercase.
pub open spec fn output_marker() -> Seq<char> {
    seq!['o', 'u', 't', 'p', 'u', 't', ':']
}

/// Some prefix of `s` has a UTF-8 encoding of `b` bytes: `b` is a character
/// boundary of `s`.
pub open spec fn is_byte_boundary(s: Seq<char>, b: int) -> bool {
    exists|j: int| 0 <= j <= s.len() && utf8_len(s.take(j)) == b
}

/// The number of characters of `s` whose encoding takes `b` bytes.
pub open spec fn chars_before_byte(s: Seq<char>, b: int) -> int {
    choose|j: int| 0 <= j <= s.len() && utf8_len(s.take(j)) == b
}

/// The answer after the marker `output:`: where the lowercase form `lowered` of
/// `fixed` holds the marker, the text of `fixed` from the byte offset just past
/// the marker's first occurrence in `lowered`, trimmed; `None` where that offset
/// is not a character boundary of `fixed` (slicing there would panic).
/// Without a marker, `fixed` itself.
pub open spec fn after_output_marker_spec(fixed: Seq<char>, lowered: Seq<char>) -> Option<Seq<char>> {
    match find(lowered, output_marker()) {
        None => Some(fixed),
        Some(k) => {
            let b: int = utf8_len(lowered.take(k)) as int + 7;
            if is_byte_boundary(fixed, b) {
                Some(trim(fixed.skip(chars_before_byte(fixed, b))))
            } else {
                None
            }
        },
    }
}

/// A text read as characters, where there is one.
pub open spec fn opt_string_view(o: Option<String>) -> Option<Seq<char>> {
    match o {
        Some(s) => Some(s@),
        None => None,
    }
}

/// Cuts the answer out of `fixed` after an `output:` marker, given the lowercase
/// form `lowered` of `fixed`.
pub fn after_output_marker(fixed: &str, lowered: &str) -> (r: Option<String>)
    ensures
        opt_string_view(r) == after_output_marker_spec(fixed@, lowered@),
{
    let f = chars_of(fixed);
    let l = chars_of(lowered);
    let marker: Vec<char> = vec!['o', 'u', 't', 'p', 'u', 't', ':'];
    proof {
        assert(marker@ =~= output_marker());
    }
    let k = match find_seq(&l, &marker) {
        None => {
            return Some(String::from_str(fixed));
        },
        Some(k) => k,
    };
    proof {
        lemma_find_from_found(l@, output_marker(), 0);
    }
    let b: u128 = utf8_prefix_len(&l, k) + 7;
    let n = f.len();
    let mut j: usize = 0;
    let mut acc: u128 = 0;
    proof {
        assert(f@.take(0) =~= Seq::<char>::empty());
    }
    while j < n && acc < b
        invariant
            j <= n,
            n == f@.len(),
            acc == utf8_len(f@.take(j as int)),
            acc <= 4 * j,
            forall|i: int| 0 <= i < j ==> utf8_len(#[trigger] f@.take(i)) < b,
        decreases n - j,
    {
        proof {
            assert(f@.take(j + 1).drop_last() =~= f@.take(j as int));
        }
        acc = acc + char_width_of(f[j]);
        j = j + 1;
    }
    if acc == b {
        proof {
            assert(is_byte_boundary(f@, b as int));
            let c = chars_before_byte(f@, b as int);
            if c < j {
                lemma_utf8_prefix_strictly_increasing(f@, c, j as int);
            } else if c > j {
                lemma_utf8_prefix_strictly_increasing(f@, j as int, c);
            }
            assert(c == j);
            assert(f@.skip(j as int) =~= f@.subrange(j as int, n as int));
        }
        let rest = copy_range(&f, j, n);
        let t = trim_chars(&rest, CharClass::Whitespace);
        Some(string_of(&t))
    } else {
        proof {
            assert forall|i: int| 0 <= i <= f@.len() implies utf8_len(#[trigger] f@.take(i)) != b by {
                if i > j {
                    lemma_utf8_prefix_strictly_increasing(f@, j as int, i);
                }
            }
        }
        None
    }
}

fn char_width_of(c: char) -> (w: u128)
    ensures
        w == utf8_width(c),
        w <= 4,
{
    crate::text::char_width(c) as u128
}

/// The text between the first two backticks of `r`; all of `r` where it holds
/// fewer than two.
pub open spec fn backtick_body(r: Seq<char>) -> Seq<char> {
    match find(r, seq!['`']) {
        Some(s) => match find(r.skip(s + 1), seq!['`']) {
            Some(e) => r.subrange(s + 1, s + 1 + e),
            None => r,
        },
        None => r,
    }
}

/// The backtick body of `r` trimmed of whitespace, then of backticks, then of
/// whitespace again.
pub open spec fn unfenced(r: Seq<char>) -> Seq<char> {
    trim(trim_by(trim(backtick_body(r)), CharClass::Backtick))
}

/// The command in a remote model's reply `r`: its unfenced text, cut after an
/// `output:` marker where its lowercase form holds one.
pub open spec fn extracted_command(r: Seq<char>) -> Option<Seq<char>> {
    after_output_marker_spec(unfenced(r), lowercase_of(unfenced(r)))
}

/// The text between the first two backticks of `r`, or all of `r`.
fn backtick_body_of(r: &[char]) -> (b: Vec<char>)
    ensures
        b@ == backtick_body(r@),
{
    let n = r.len();
    let tick: Vec<char> = vec!['`'];
    proof {
        assert(tick@ =~= seq!['`']);
        assert(r@.subrange(0, n as int) =~= r@);
    }
    match find_seq(r, &tick) {
        Some(s) => {
            proof {
                lemma_find_from_found(r@, seq!['`'], 0);
            }
            let rest = copy_range(r, s + 1, n);
            proof {
                assert(rest@ =~= r@.skip(s + 1));
            }
            match find_seq(&rest, &tick) {
                Some(e) => {
                    proof {
                        lemma_find_from_found(rest@, seq!['`'], 0);
                    }
                    copy_range(r, s + 1, s + 1 + e)
                },
                None => copy_range(r, 0, n),
            }
        },
        None => copy_range(r, 0, n),
    }
}

/// Takes the corrected command out of a remote model's reply. `None` where the
/// reply is one on which cutting at the `output:` marker would split a character.
pub fn extract_command(response: &str) -> (r: Option<String>)
    ensures
        opt_string_view(r) == extracted_command(response@),
{
    let rc = chars_of(response);
    let body = backtick_body_of(&rc);
    let t1 = trim_chars(&body, CharClass::Whitespace);
    let t2 = trim_chars(&t1, CharClass::Backtick);
    let t3 = trim_chars(&t2, CharClass::Whitespace);
    let fixed = string_of(&t3);
    let lowered = to_lowercase(fixed.as_str());
    after_output_marker(fixed.as_str(), lowered.as_str())
}

/// The command taken from a remote model's reply has no whitespace at its ends.
pub proof fn law_extracted_is_trimmed(r: Seq<char>)
    ensures
        extracted_command(r) matches Some(c) ==> trim(c) == c,
{
    let f = unfenced(r);
    lemma_trim_idempotent(trim_by(trim(backtick_body(r)), CharClass::Backtick), CharClass::Whitespace);
    match find(lowercase_of(f), output_marker()) {
        None => {},
        Some(k) => {
            let b: int = utf8_len(lowercase_of(f).take(k)) as int + 7;
            if is_byte_boundary(f, b) {
                lemma_trim_idempotent(f.skip(chars_before_byte(f, b)), CharClass::Whitespace);
            }
        },
    }
}

/// A remote provider is used only where `FAK_PROVIDER` is set: without it the
/// embedded model answers.
pub proof fn law_remote_only_when_set(setting: Option<Seq<char>>)
    ensures
        detected_provider(setting) != ProviderType::Local ==> setting is Some,
{
}

} // verus!
