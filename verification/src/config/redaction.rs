//! Keeping credentials out of messages and records.
use vstd::prelude::*;

use crate::config::Config;
use crate::text::{characters, find, join, replace};

verus! {

/// A URL without its path: the scheme and the authority, or nothing at all where it has neither.
pub open spec fn redacted_url(s: Seq<char>) -> Seq<char> {
    match crate::text::next_occurrence(s, "://"@, 0) {
        None => "***"@,
        Some(i) => {
            let rest: Seq<char> = s.skip(i + 3);
            let authority: Seq<char> = rest.take(
                crate::text::first_position(rest, '/') as int,
            );
            if authority.len() == 0 {
                "***"@
            } else {
                s.take(i) + "://"@ + authority + "/***"@
            }
        },
    }
}

/// A text with the two RPC URLs redacted wherever they occur.
pub open spec fn redacted(text: Seq<char>, https_rpc: Seq<char>, wss_rpc: Seq<char>) -> Seq<char> {
    crate::text::replaced(
        crate::text::replaced(text, https_rpc, redacted_url(https_rpc)),
        wss_rpc,
        redacted_url(wss_rpc),
    )
}

/// Redacts a URL.
pub fn redact_url(value: &str) -> (result: String)
    ensures
        result@ == redacted_url(value@),
{
    proof {
        reveal_strlit("://");
    }
    let chars: Vec<char> = characters(value);
    let length: usize = chars.len();
    let mark: Vec<char> = characters("://");
    match find(&chars, &mark, 0) {
        None => "***".to_owned(),
        Some(i) => {
            let start: usize = i + 3;
            let mut end: usize = start;
            let ghost rest: Seq<char> = value@.skip(start as int);
            while end < length && chars[end] != '/'
                invariant
                    start <= end <= length == chars@.len(),
                    chars@ == value@,
                    rest == value@.skip(start as int),
                    forall|j: int| 0 <= j < end - start ==> rest[j] != '/',
                decreases length - end,
            {
                end = end + 1;
            }
            proof {
                crate::text::lemma_first_position(rest, '/', end - start);
                assert(rest.take(end - start) =~= value@.subrange(start as int, end as int));
                assert(value@.subrange(0, i as int) =~= value@.take(i as int));
            }
            if end == start {
                return "***".to_owned();
            }
            let scheme: &str = value.substring_char(0, i);
            let authority: &str = value.substring_char(start, end);
            join(join(join(scheme, "://").as_str(), authority).as_str(), "/***")
        },
    }
}

impl Config {
    /// Redacts the RPC URLs, which may hold credentials, in a text that is going to be kept.
    pub fn redact_rpc(&self, text: &str) -> (result: String)
        ensures
            result@ == redacted(text@, self.https_rpc@, self.wss_rpc@),
    {
        let https: String = replace(
            text,
            self.https_rpc.as_str(),
            redact_url(self.https_rpc.as_str()).as_str(),
        );
        replace(
            https.as_str(),
            self.wss_rpc.as_str(),
            redact_url(self.wss_rpc.as_str()).as_str(),
        )
    }
}

/// Two URLs that agree up to the end of the authority look the same once redacted: nothing of the
/// path, where credentials stand, is kept.
pub proof fn law_redaction_forgets_the_path(a: Seq<char>, b: Seq<char>, i: int)
    requires
        crate::text::next_occurrence(a, "://"@, 0) == Some(i),
        crate::text::next_occurrence(b, "://"@, 0) == Some(i),
        a.take(i) == b.take(i),
        ({
            let x: Seq<char> = a.skip(i + 3);
            let y: Seq<char> = b.skip(i + 3);
            x.take(crate::text::first_position(x, '/') as int) == y.take(
                crate::text::first_position(y, '/') as int,
            )
        }),
    ensures
        redacted_url(a) == redacted_url(b),
{
}

/// A text in which neither URL occurs is kept as it is.
pub proof fn law_redaction_keeps_other_text(
    text: Seq<char>,
    https_rpc: Seq<char>,
    wss_rpc: Seq<char>,
)
    requires
        crate::text::next_occurrence(text, https_rpc, 0) is None,
        crate::text::next_occurrence(text, wss_rpc, 0) is None,
    ensures
        redacted(text, https_rpc, wss_rpc) == text,
{
}

/// A URL is kept up to the end of its authority, which follows the first `://` and ends before the
/// next slash, or with the text; what stands there instead of the path says only that there was
/// more.
pub proof fn law_redaction_keeps_scheme_and_authority(s: Seq<char>, i: int, k: int)
    requires
        crate::text::next_occurrence(s, "://"@, 0) == Some(i),
        0 <= i,
        0 < k,
        i + 3 + k <= s.len(),
        forall|j: int| i + 3 <= j < i + 3 + k ==> #[trigger] s[j] != '/',
        i + 3 + k == s.len() || s[i + 3 + k] == '/',
    ensures
        redacted_url(s) == s.take(i + 3 + k) + "/***"@,
{
    reveal_strlit("://");
    let rest: Seq<char> = s.skip(i + 3);
    assert forall|j: int| 0 <= j < k implies rest[j] != '/' by {
        assert(rest[j] == s[i + 3 + j]);
    }
    crate::text::lemma_first_position(rest, '/', k);
    lemma_occurs(s, "://"@, 0, i);
    assert(s.subrange(i, i + 3) == "://"@);
    assert(s.take(i) + "://"@ + rest.take(k) =~= s.take(i + 3 + k)) by {
        assert forall|j: int| 0 <= j < i + 3 + k implies (s.take(i) + "://"@ + rest.take(k))[j]
            == s[j] by {
            if i <= j < i + 3 {
                assert(s.subrange(i, i + 3)[j - i] == s[j]);
            }
        }
    }
}

/// A text without `://`, or without anything between that and a slash, is not kept at all.
pub proof fn law_redaction_drops_what_is_no_url(s: Seq<char>, i: int)
    ensures
        crate::text::next_occurrence(s, "://"@, 0) is None ==> redacted_url(s) == "***"@,
        crate::text::next_occurrence(s, "://"@, 0) == Some(i) && 0 <= i && (i + 3 == s.len() || (i
            + 3 < s.len() && s[i + 3] == '/')) ==> redacted_url(s) == "***"@,
{
    if crate::text::next_occurrence(s, "://"@, 0) == Some(i) && 0 <= i && (i + 3 == s.len() || (i
        + 3 < s.len() && s[i + 3] == '/')) {
        let rest: Seq<char> = s.skip(i + 3);
        crate::text::lemma_first_position(rest, '/', 0);
    }
}

proof fn lemma_occurs(s: Seq<char>, part: Seq<char>, from: int, i: int)
    requires
        crate::text::next_occurrence(s, part, from) == Some(i),
    ensures
        crate::text::occurs_at(s, part, i),
        from <= i,
    decreases s.len() + 1 - from,
{
    if from + part.len() <= s.len() && !crate::text::occurs_at(s, part, from) {
        lemma_occurs(s, part, from + 1, i);
    }
}

/// Both node URLs are redacted, and every time they occur: what stands before the first occurrence
/// is kept, the occurrence is replaced, and the rest is dealt with in the same way.
pub proof fn law_every_occurrence_is_redacted(
    text: Seq<char>,
    https_rpc: Seq<char>,
    wss_rpc: Seq<char>,
    i: int,
)
    requires
        https_rpc.len() > 0,
        wss_rpc.len() > 0,
        0 <= i,
    ensures
        crate::text::next_occurrence(text, https_rpc, 0) is None && crate::text::next_occurrence(
            text,
            wss_rpc,
            0,
        ) == Some(i) ==> redacted(text, https_rpc, wss_rpc) == text.take(i) + redacted_url(wss_rpc)
            + crate::text::replaced(text.skip(i + wss_rpc.len()), wss_rpc, redacted_url(wss_rpc)),
        crate::text::next_occurrence(text, https_rpc, 0) == Some(i) ==> ({
            let first: Seq<char> = text.take(i) + redacted_url(https_rpc) + crate::text::replaced(
                text.skip(i + https_rpc.len()),
                https_rpc,
                redacted_url(https_rpc),
            );
            &&& crate::text::next_occurrence(first, wss_rpc, 0) is None ==> redacted(
                text,
                https_rpc,
                wss_rpc,
            ) == first
        }),
{
    if crate::text::next_occurrence(text, https_rpc, 0) == Some(i) {
        lemma_occurs(text, https_rpc, 0, i);
    }
    if crate::text::next_occurrence(text, wss_rpc, 0) == Some(i) {
        lemma_occurs(text, wss_rpc, 0, i);
    }
}

} // verus!
