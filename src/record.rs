use vstd::prelude::*;

use crate::text::{key_matches, to_chars};

verus! {

/// What serde_json writes for a string: a JSON string literal, quoted and escaped.
pub uninterp spec fn json_quote(s: Seq<char>) -> Seq<char>;

/// What serde_json reads from a text as a string; `None` where the text is
/// not a single JSON string literal.
pub uninterp spec fn json_unquote(s: Seq<char>) -> Option<Seq<char>>;

/// Relies on serde_json::to_string for a `str`: the result is the JSON string
/// literal of `s`, which reads back as `s`; it is framed by quotes, and each
/// quote inside is escaped by a backslash. Writing a `str` into a buffer
/// cannot fail.
#[verifier::external_body]
fn quote(s: &str) -> (r: String)
    ensures
        r@ == json_quote(s@),
        json_unquote(r@) == Some(s@),
        quoted_shape(r@),
{
    serde_json::to_string(s).unwrap()
}

/// Relies on serde_json::from_str for a `String`: reads one JSON string
/// literal and fails on any other text.
#[verifier::external_body]
fn unquote(s: &str) -> (r: Option<String>)
    ensures
        match r {
            Some(v) => json_unquote(s@) == Some(v@),
            None => json_unquote(s@) is None,
        },
{
    serde_json::from_str::<String>(s).ok()
}

/// `{"title":`, the opening of a note record.
pub open spec fn title_key() -> Seq<char> {
    seq!['{', '"', 't', 'i', 't', 'l', 'e', '"', ':']
}

/// `,"content":`, which separates the two fields of a note record.
pub open spec fn content_key() -> Seq<char> {
    seq![',', '"', 'c', 'o', 'n', 't', 'e', 'n', 't', '"', ':']
}

/// The text of the record of a note: `{"title":<title>,"content":<content>}`.
pub open spec fn note_text(title: Seq<char>, content: Seq<char>) -> Seq<char> {
    title_key() + json_quote(title) + content_key() + json_quote(content) + seq!['}']
}

/// `content_key` stands in `x` at `j`.
pub open spec fn key_at(x: Seq<char>, j: int) -> bool {
    0 <= j && j + content_key().len() <= x.len() && x.subrange(j, j + content_key().len())
        == content_key()
}

/// `j` is the first place where `content_key` stands in `x`.
pub open spec fn first_key(x: Seq<char>, j: int) -> bool {
    key_at(x, j) && forall|k: int| 0 <= k < j ==> !#[trigger] key_at(x, k)
}

/// A text framed as a record: it opens with `title_key` and closes with `}`.
pub open spec fn framed(text: Seq<char>) -> bool {
    text.len() >= title_key().len() + 1 && text.subrange(0, title_key().len() as int)
        == title_key() && text[text.len() - 1] == '}'
}

/// What stands between the opening and the closing brace of a framed record.
pub open spec fn record_body(text: Seq<char>) -> Seq<char> {
    text.subrange(title_key().len() as int, text.len() - 1)
}

/// The title and content that a record text holds: the body is cut at the
/// first `content_key`, and each side must read as a JSON string.
pub open spec fn parse_record(text: Seq<char>) -> Option<(Seq<char>, Seq<char>)> {
    let x = record_body(text);
    if framed(text) && exists|j: int| first_key(x, j) {
        let j = choose|j: int| first_key(x, j);
        match (json_unquote(x.subrange(0, j)), json_unquote(x.subrange(j + content_key().len(), x.len() as int))) {
            (Some(t), Some(c)) => Some((t, c)),
            _ => None,
        }
    } else {
        None
    }
}

proof fn lemma_first_key_unique(x: Seq<char>, j: int, k: int)
    requires
        first_key(x, j),
        first_key(x, k),
    ensures
        j == k,
{
    if j < k {
        assert(!key_at(x, j));
    } else if k < j {
        assert(!key_at(x, k));
    }
}

/// The text of a quoted string, framed by quotes, each inner quote escaped.
pub open spec fn quoted_shape(q: Seq<char>) -> bool {
    &&& q.len() >= 2
    &&& q[0] == '"'
    &&& q[q.len() - 1] == '"'
    &&& forall|i: int| 0 < i < q.len() - 1 ==> #[trigger] escaped_at(q, i)
}

/// A quote at `i` is preceded by a backslash.
pub open spec fn escaped_at(q: Seq<char>, i: int) -> bool {
    q[i] == '"' ==> q[i - 1] == '\\'
}

proof fn lemma_no_key_inside(qt: Seq<char>, qc: Seq<char>, k: int)
    requires
        quoted_shape(qt),
        0 <= k < qt.len(),
    ensures
        !key_at(qt + content_key() + qc, k),
{
    let x = qt + content_key() + qc;
    let n = qt.len() as int;
    if key_at(x, k) {
        let w = x.subrange(k, k + 11);
        assert(w[0] == x[k] && w[1] == x[k + 1] && w[2] == x[k + 2]);
        assert(w[0] == ',' && w[1] == '"' && w[2] == 'c');
        if k + 1 < n - 1 {
            assert(x[k + 1] == qt[k + 1] && x[k] == qt[k]);
            assert(escaped_at(qt, k + 1));
        } else if k + 1 == n - 1 {
            assert(x[k + 2] == content_key()[0]);
        } else {
            assert(x[k] == qt[n - 1]);
        }
    }
}

/// A quoted title is never followed by a separator that starts inside it, so
/// the first separator in an encoded record is the one after the title.
proof fn lemma_key_after_title(qt: Seq<char>, qc: Seq<char>)
    requires
        quoted_shape(qt),
    ensures
        first_key(qt + content_key() + qc, qt.len() as int),
{
    let x = qt + content_key() + qc;
    let n = qt.len() as int;
    assert(x.subrange(n, n + 11) =~= content_key());
    assert forall|k: int| 0 <= k < n implies !#[trigger] key_at(x, k) by {
        lemma_no_key_inside(qt, qc, k);
    }
}

/// The text `{"title":<title>,"content":<content>}`; it reads back as the pair.
pub fn encode_note(title: &str, content: &str) -> (r: String)
    ensures
        r@ == note_text(title@, content@),
        parse_record(r@) == Some((title@, content@)),
{
    let qt = quote(title);
    let qc = quote(content);
    let mut r = String::from_str("{\"title\":");
    r.append(qt.as_str());
    r.append(",\"content\":");
    r.append(qc.as_str());
    r.append("}");
    proof {
        reveal_strlit("{\"title\":");
        reveal_strlit(",\"content\":");
        reveal_strlit("}");
        let text = r@;
        assert(text =~= note_text(title@, content@));
        let x = qt@ + content_key() + qc@;
        assert(text.subrange(0, 9) =~= title_key());
        assert(text[text.len() - 1] == '}');
        assert(framed(text));
        assert(record_body(text) =~= x);
        lemma_key_after_title(qt@, qc@);
        let n = qt@.len() as int;
        let j = choose|j: int| first_key(x, j);
        lemma_first_key_unique(x, j, n);
        assert(x.subrange(0, n) =~= qt@);
        assert(x.subrange(n + content_key().len(), x.len() as int) =~= qc@);
    }
    r
}

/// Reads the title and content back from a record text; `None` where the
/// text is no record.
pub fn decode_note(text: &str) -> (r: Option<(String, String)>)
    ensures
        match r {
            Some(p) => parse_record(text@) == Some((p.0@, p.1@)),
            None => parse_record(text@) is None,
        },
{
    let v = to_chars(text);
    let n = v.len();
    let open = to_chars("{\"title\":");
    let sep = to_chars(",\"content\":");
    proof {
        reveal_strlit("{\"title\":");
        reveal_strlit(",\"content\":");
        assert(open@ =~= title_key());
        assert(sep@ =~= content_key());
    }
    if n < 10 || !key_matches(&v, 0, &open) || v[n - 1] != '}' {
        return None;
    }
    let ghost x = record_body(text@);
    assert(framed(text@));
    let mut j: usize = 9;
    while 12 <= n - j
        invariant
            9 <= j <= n,
            n == v@.len(),
            n >= 10,
            v@ == text@,
            framed(text@),
            sep@ == content_key(),
            x == record_body(text@),
            x.len() == n - 10,
            forall|k: int| 0 <= k < j - 9 ==> !#[trigger] key_at(x, k),
        decreases n - j,
    {
        let found = key_matches(&v, j, &sep);
        proof {
            assert(x.subrange(j - 9, j + 2) =~= v@.subrange(j as int, j + 11));
        }
        if found {
            proof {
                assert(key_at(x, j - 9));
                assert(first_key(x, j - 9));
                let c = choose|c: int| first_key(x, c);
                lemma_first_key_unique(x, c, j - 9);
                assert(x.subrange(0, j - 9) =~= text@.subrange(9, j as int));
                assert(x.subrange(j + 2, x.len() as int) =~= text@.subrange(j + 11, n - 1));
            }
            let t = unquote(text.substring_char(9, j));
            let c = unquote(text.substring_char(j + 11, n - 1));
            return match (t, c) {
                (Some(t), Some(c)) => Some((t, c)),
                _ => None,
            };
        }
        j += 1;
    }
    proof {
        assert forall|k: int| !first_key(x, k) by {
            if first_key(x, k) {
                assert(!key_at(x, k));
            }
        }
    }
    None
}

} // verus!
