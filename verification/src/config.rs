//! Server settings: the database, the API key and the port, with their
//! defaults when a setting is missing or unreadable.
use vstd::prelude::*;

verus! {

/// The server's settings.
pub struct Config {
    pub database_url: String,
    pub anthropic_api_key: String,
    pub port: u16,
    /// The model used for categorizing and for reading item images.
    pub small_model: String,
    /// The model used for flyers, screenshots and meal ideas.
    pub large_model: String,
}

/// The database used when none is given.
pub open spec fn default_database_url() -> Seq<char> {
    "sqlite:data.db"@
}

/// The port used when none is given or the given one does not parse.
pub const DEFAULT_PORT: u16 = 3001;

/// Whether every character is an ASCII digit.
pub open spec fn all_digits(s: Seq<char>) -> bool {
    forall|i: int| 0 <= i < s.len() ==> '0' <= #[trigger] s[i] <= '9'
}

/// The number that a run of ASCII digits writes in base ten.
pub open spec fn digits_value(s: Seq<char>) -> nat
    decreases s.len(),
{
    if s.len() == 0 {
        0
    } else {
        digits_value(s.drop_last()) * 10 + ((s.last() as nat) - ('0' as nat)) as nat
    }
}

/// What `str::parse::<u16>` gives for a text: an optional `+`, then one or more
/// ASCII digits whose value fits in a `u16`; anything else is refused.
pub open spec fn parsed_u16(s: Seq<char>) -> Option<u16> {
    let body = if s.len() > 0 && s[0] == '+' { s.drop_first() } else { s };
    if body.len() > 0 && all_digits(body) && digits_value(body) <= 65535 {
        Some(digits_value(body) as u16)
    } else {
        None
    }
}

/// A longer run of digits never writes a smaller number.
pub proof fn lemma_digits_value_grows(s: Seq<char>, i: int)
    requires
        all_digits(s),
        0 <= i <= s.len(),
    ensures
        digits_value(s.take(i)) <= digits_value(s),
    decreases s.len() - i,
{
    if i < s.len() {
        lemma_digits_value_grows(s, i + 1);
        assert(s.take(i + 1).drop_last() =~= s.take(i));
    } else {
        assert(s.take(i) =~= s);
    }
}

/// Parses a port number as `str::parse::<u16>` does.
pub fn parse_u16(s: &str) -> (r: Option<u16>)
    ensures
        r == parsed_u16(s@),
{
    let chars = crate::text::chars_of(s);
    let n = chars.len();
    let mut start: usize = 0;
    if n > 0 && chars[0] == '+' {
        start = 1;
    }
    let ghost body = if s@.len() > 0 && s@[0] == '+' { s@.drop_first() } else { s@ };
    assert(body =~= chars@.subrange(start as int, n as int));
    if start == n {
        return None;
    }
    let mut value: u32 = 0;
    let mut i: usize = start;
    while i < n
        invariant
            start <= i <= n == chars@.len(),
            chars@ == s@,
            body == chars@.subrange(start as int, n as int),
            body == (if s@.len() > 0 && s@[0] == '+' { s@.drop_first() } else { s@ }),
            body.len() > 0,
            value <= 65535,
            all_digits(chars@.subrange(start as int, i as int)),
            value == digits_value(chars@.subrange(start as int, i as int)),
        decreases n - i,
    {
        let c = chars[i];
        let ghost prefix = chars@.subrange(start as int, i as int);
        let ghost next = chars@.subrange(start as int, i + 1);
        assert(next.drop_last() =~= prefix);
        assert(next.last() == c);
        if !('0' <= c && c <= '9') {
            assert(body[(i - start) as int] == c);
            assert(!all_digits(body));
            return None;
        }
        let d = (c as u32) - ('0' as u32);
        let v = value * 10 + d;
        assert(forall|k: int| 0 <= k < next.len() ==> '0' <= #[trigger] next[k] <= '9') by {
            assert forall|k: int| 0 <= k < next.len() implies '0' <= #[trigger] next[k] <= '9' by {
                if k < prefix.len() {
                    assert(next[k] == prefix[k]);
                }
            }
        }
        if v > 65535 {
            proof {
                assert(body.take((i + 1 - start) as int) =~= next);
                assert(digits_value(next) == v);
                if all_digits(body) {
                    lemma_digits_value_grows(body, (i + 1 - start) as int);
                    assert(digits_value(body) > 65535);
                }
            }
            return None;
        }
        value = v;
        i += 1;
    }
    assert(chars@.subrange(start as int, n as int) =~= body);
    Some(value as u16)
}

impl Config {
    /// The settings from the values given for them, each possibly missing:
    /// the database defaults to `sqlite:data.db`, the key and the model names
    /// to the empty text, and the port to 3001 when it is missing or is not a `u16`.
    pub fn from_settings(
        database_url: Option<String>,
        anthropic_api_key: Option<String>,
        port: Option<String>,
        small_model: Option<String>,
        large_model: Option<String>,
    ) -> (r: Config)
        ensures
            r.database_url@ == (match database_url {
                Some(u) => u@,
                None => default_database_url(),
            }),
            r.anthropic_api_key@ == (match anthropic_api_key {
                Some(k) => k@,
                None => Seq::<char>::empty(),
            }),
            r.port == (match port {
                Some(p) => match parsed_u16(p@) {
                    Some(n) => n,
                    None => DEFAULT_PORT,
                },
                None => DEFAULT_PORT,
            }),
            r.small_model@ == (match small_model {
                Some(m) => m@,
                None => Seq::<char>::empty(),
            }),
            r.large_model@ == (match large_model {
                Some(m) => m@,
                None => Seq::<char>::empty(),
            }),
    {
        let database_url = match database_url {
            Some(u) => u,
            None => "sqlite:data.db".to_string(),
        };
        let anthropic_api_key = match anthropic_api_key {
            Some(k) => k,
            None => String::new(),
        };
        let port = match port {
            Some(p) => match parse_u16(p.as_str()) {
                Some(n) => n,
                None => DEFAULT_PORT,
            },
            None => DEFAULT_PORT,
        };
        let small_model = match small_model {
            Some(m) => m,
            None => String::new(),
        };
        let large_model = match large_model {
            Some(m) => m,
            None => String::new(),
        };
        Config { database_url, anthropic_api_key, port, small_model, large_model }
    }

    /// Whether both model settings name a model: every request to the model
    /// API names one, so the server cannot run without them.
    pub fn models_configured(&self) -> (r: bool)
        ensures
            r == (self.small_model@.len() > 0 && self.large_model@.len() > 0),
    {
        !self.small_model.as_str().is_empty() && !self.large_model.as_str().is_empty()
    }
}

} // verus!
