//! View counts kept in the store and their upload to the recommendation service.

use vstd::prelude::*;

use crate::signing::{
    hex_digit, hex_encode, hex_lower, hmac_sha256, hmac_sha256_tag, lemma_hex_lower_len,
};
use crate::text::{
    decimal, i64_to_decimal, law_decimal_parses_back, parse_u64, parse_u64_text, signed_decimal,
    u64_to_decimal,
};
use crate::view_counts::ViewCounts;

verus! {

/// Where view counts are uploaded.
pub const RECSYS_ENDPOINT: &'static str =
    "https://recsys-influencer-feed.ansuman.yral.com/api/v1/internal/feed-recsys/view-counts";

/// Prefix of the store key that holds a video's counters.
pub const VIDEO_KEY_PREFIX: &'static str = "impressions:rewards:video:";

/// Field of that key that holds the total view count.
pub const TOTAL_COUNT_FIELD: &'static str = "total_count_all";

/// The store key of a video's counters.
pub fn view_count_key(video_id: &str) -> (r: String)
    ensures
        r@ == VIDEO_KEY_PREFIX@ + video_id@,
{
    let mut key = String::from_str(VIDEO_KEY_PREFIX);
    key.append(video_id);
    key
}

/// The view count that a stored field value stands for: its decimal value, or zero when
/// it is absent or not a decimal `u64`.
pub open spec fn stored_count(stored: Option<Seq<char>>) -> u64 {
    match stored {
        Some(s) => match parse_u64(s) {
            Some(n) => n,
            None => 0,
        },
        None => 0,
    }
}

/// The view count that the stored `total_count_all` field stands for.
pub fn view_count_from_stored(stored: Option<String>) -> (r: u64)
    ensures
        r == stored_count(
            match stored {
                Some(s) => Some(s@),
                None => None,
            },
        ),
{
    match stored {
        Some(s) => match parse_u64_text(s.as_str()) {
            Some(n) => n,
            None => 0,
        },
        None => 0,
    }
}

/// Presence of a stored value, by its text.
pub open spec fn stored_text(stored: Option<String>) -> Option<Seq<char>> {
    match stored {
        Some(s) => Some(s@),
        None => None,
    }
}

/// Counts of the first `n` looked-up videos, each id with the count its stored value
/// stands for; a later occurrence of an id wins.
pub open spec fn looked_up_counts(ids: Seq<String>, stored: Seq<Option<String>>, n: nat) -> Map<
    Seq<char>,
    u64,
>
    decreases n,
{
    if n == 0 {
        Map::empty()
    } else {
        looked_up_counts(ids, stored, (n - 1) as nat).insert(
            ids[n - 1]@,
            stored_count(stored_text(stored[n - 1])),
        )
    }
}

/// The store keys to look up for a list of videos, in the same order; nothing when there
/// are no videos, which needs no lookup at all.
pub fn view_count_keys(video_ids: &Vec<String>) -> (r: Option<Vec<String>>)
    ensures
        r is None <==> video_ids@.len() == 0,
        r matches Some(keys) ==> keys@.len() == video_ids@.len() && forall|i: int|
            0 <= i < keys@.len() ==> (#[trigger] keys@[i])@ == VIDEO_KEY_PREFIX@ + video_ids@[i]@,
{
    if video_ids.len() == 0 {
        return None;
    }
    let mut keys: Vec<String> = Vec::new();
    let mut i: usize = 0;
    while i < video_ids.len()
        invariant
            i <= video_ids@.len(),
            keys@.len() == i,
            forall|j: int|
                0 <= j < i ==> (#[trigger] keys@[j])@ == VIDEO_KEY_PREFIX@ + video_ids@[j]@,
        decreases video_ids@.len() - i,
    {
        keys.push(view_count_key(video_ids[i].as_str()));
        i = i + 1;
    }
    Some(keys)
}

/// The view counts of a list of videos from the values stored for them, paired in order;
/// pairing stops at the shorter list.
pub fn view_counts_from_stored(video_ids: &Vec<String>, stored: Vec<Option<String>>) -> (r:
    ViewCounts)
    ensures
        r@ == looked_up_counts(
            video_ids@,
            stored@,
            if video_ids@.len() <= stored@.len() {
                video_ids@.len()
            } else {
                stored@.len()
            },
        ),
{
    let n = if video_ids.len() <= stored.len() {
        video_ids.len()
    } else {
        stored.len()
    };
    let mut counts = ViewCounts::new();
    let mut i: usize = 0;
    while i < n
        invariant
            n <= video_ids@.len(),
            n <= stored@.len(),
            i <= n,
            counts@ == looked_up_counts(video_ids@, stored@, i as nat),
        decreases n - i,
    {
        let count = view_count_from_stored(stored[i].clone());
        counts.insert(video_ids[i].clone(), count);
        i = i + 1;
    }
    counts
}

/// How serde_json writes one character inside a JSON string: quote and backslash are
/// escaped with a backslash; backspace, tab, line feed, form feed and carriage return as
/// `\b`, `\t`, `\n`, `\f`, `\r`; other characters below U+0020 as `\u00` and two
/// lowercase hex digits; every other character as itself.
pub open spec fn json_escape(c: char) -> Seq<char> {
    let n = c as u32;
    if c == '"' {
        seq!['\\', '"']
    } else if c == '\\' {
        seq!['\\', '\\']
    } else if n == 8 {
        seq!['\\', 'b']
    } else if n == 9 {
        seq!['\\', 't']
    } else if n == 10 {
        seq!['\\', 'n']
    } else if n == 12 {
        seq!['\\', 'f']
    } else if n == 13 {
        seq!['\\', 'r']
    } else if n < 32 {
        seq!['\\', 'u', '0', '0', hex_digit((n / 16) as nat), hex_digit((n % 16) as nat)]
    } else {
        seq![c]
    }
}

/// The escaped characters of a text.
pub open spec fn json_escaped(s: Seq<char>) -> Seq<char>
    decreases s.len(),
{
    if s.len() == 0 {
        Seq::empty()
    } else {
        json_escaped(s.drop_last()) + json_escape(s.last())
    }
}

/// JSON text of a string, as serde_json writes it: quoted, with its characters escaped.
pub open spec fn json_string(s: Seq<char>) -> Seq<char> {
    seq!['"'] + json_escaped(s) + seq!['"']
}

/// Calls `serde_json::to_string` on a `&str`. Claimed: the result is `json_string(s)`, as
/// the crate's `format_escaped_str` and its `ESCAPE` table give it.
/// Serialising a string cannot fail, so the default is never taken.
#[verifier::external_body]
fn json_string_text(s: &str) -> (r: String)
    ensures
        r@ == json_string(s@),
{
    serde_json::to_string(s).unwrap_or_default()
}

/// One element of the upload: the object with the count and the video id, keys in
/// serde_json's sorted order.
pub open spec fn count_item(id: Seq<char>, count: u64) -> Seq<char> {
    "{\"total_count_all\":"@ + decimal(count as nat) + ",\"video_id\":"@ + json_string(id) + "}"@
}

/// The elements of the upload, comma-separated.
pub open spec fn count_items(entries: Seq<(Seq<char>, u64)>) -> Seq<char>
    decreases entries.len(),
{
    if entries.len() == 0 {
        Seq::empty()
    } else if entries.len() == 1 {
        count_item(entries[0].0, entries[0].1)
    } else {
        count_items(entries.drop_last()) + ","@ + count_item(entries.last().0, entries.last().1)
    }
}

/// The JSON array uploaded for the entries.
pub open spec fn view_counts_payload(entries: Seq<(Seq<char>, u64)>) -> Seq<char> {
    "["@ + count_items(entries) + "]"@
}

/// The text that the upload's signature covers.
pub open spec fn signing_message(timestamp: Seq<char>, path: Seq<char>, body: Seq<char>) -> Seq<
    char,
> {
    timestamp + "\n"@ + "POST"@ + "\n"@ + path + "\n"@ + body
}

/// An upload of view counts to the recommendation service.
pub struct RecsysUpload {
    /// Target of the `POST`.
    pub url: String,
    /// Value of the `x-internal-timestamp` header.
    pub timestamp: String,
    /// Value of the `x-internal-signature` header.
    pub signature: String,
    /// The JSON body.
    pub body: String,
}

/// `u` uploads `entries` to the recommendation service, signed with `secret` at `now` for
/// the endpoint path `path`.
pub open spec fn is_upload_of(
    u: RecsysUpload,
    entries: Seq<(Seq<char>, u64)>,
    path: Seq<char>,
    secret: Seq<char>,
    now: i64,
) -> bool {
    &&& u.url@ == RECSYS_ENDPOINT@
    &&& u.body@ == view_counts_payload(entries)
    &&& u.timestamp@ == signed_decimal(now as int)
    &&& u.signature@ == hex_lower(hmac_sha256(secret, signing_message(u.timestamp@, path, u.body@)))
    &&& u.signature@.len() == 64
}

/// The JSON array of the view counts.
pub fn view_counts_body(counts: &ViewCounts) -> (r: String)
    ensures
        r@ == view_counts_payload(counts.entries()),
{
    let mut body = String::from_str("[");
    let n = counts.len();
    let mut i: usize = 0;
    while i < n
        invariant
            n == counts.entries().len(),
            i <= n,
            body@ == "["@ + count_items(counts.entries().take(i as int)),
        decreases n - i,
    {
        let (id, count) = counts.entry(i);
        let ghost before = body@;
        if i > 0 {
            body.append(",");
        }
        body.append("{\"total_count_all\":");
        let digits = u64_to_decimal(count);
        body.append(digits.as_str());
        body.append(",\"video_id\":");
        let quoted = json_string_text(id);
        body.append(quoted.as_str());
        body.append("}");
        proof {
            let e = counts.entries();
            assert(e.take(i + 1).drop_last() == e.take(i as int));
            assert(e.take(i + 1).last() == e[i as int]);
            if i == 0 {
                assert(count_items(e.take(0)) == Seq::<char>::empty());
                assert(body@ == before + count_item(e[0].0, e[0].1));
            } else {
                assert(body@ == before + ","@ + count_item(e[i as int].0, e[i as int].1));
            }
        }
        i = i + 1;
    }
    body.append("]");
    proof {
        assert(counts.entries().take(n as int) == counts.entries());
    }
    body
}

/// The upload of `counts` signed with `secret` at `now` (seconds since the epoch), for
/// the endpoint path `path`; nothing when there is nothing to upload.
pub fn plan_view_count_upload(counts: &ViewCounts, path: &str, secret: &str, now: i64) -> (r:
    Option<RecsysUpload>)
    ensures
        r is None <==> counts.entries().len() == 0,
        r matches Some(u) ==> is_upload_of(u, counts.entries(), path@, secret@, now),
{
    if counts.is_empty() {
        return None;
    }
    let body = view_counts_body(counts);
    let timestamp = i64_to_decimal(now);
    let mut message = timestamp.clone();
    message.append("\n");
    message.append("POST");
    message.append("\n");
    message.append(path);
    message.append("\n");
    message.append(body.as_str());
    let tag = hmac_sha256_tag(secret, message.as_str());
    let signature = hex_encode(tag.as_slice());
    proof {
        lemma_hex_lower_len(tag@);
    }
    Some(RecsysUpload { url: String::from_str(RECSYS_ENDPOINT), timestamp, signature, body })
}

/// A count stored as its decimal text reads back as the same count.
pub proof fn law_stored_decimal_reads_back(n: u64)
    ensures
        stored_count(Some(decimal(n as nat))) == n,
{
    law_decimal_parses_back(n as nat);
}

/// Each recorded entry adds one element to the upload, after the ones before it: the
/// upload of a non-empty list extended by an entry is its upload, a comma and that
/// entry's object.
pub proof fn law_upload_items_one_per_entry(s: Seq<(Seq<char>, u64)>, e: (Seq<char>, u64))
    ensures
        s.len() == 0 ==> count_items(s.push(e)) == count_item(e.0, e.1),
        s.len() > 0 ==> count_items(s.push(e)) == count_items(s) + ","@ + count_item(e.0, e.1),
{
    assert(s.push(e).drop_last() == s);
    assert(s.push(e).last() == e);
    if s.len() == 0 {
        assert(s.push(e)[0] == e);
    }
}

/// The upload of a list of entries is a bracketed, comma-separated list with the object of
/// every entry, in order: the first `k + 1` entries give the items of the first `k` then
/// (after a comma when `k > 0`) the object of entry `k`.
pub proof fn law_upload_items_in_order(entries: Seq<(Seq<char>, u64)>, k: int)
    requires
        0 <= k < entries.len(),
    ensures
        count_items(entries.take(k + 1)) == count_items(entries.take(k)) + (if k > 0 {
            ","@
        } else {
            Seq::<char>::empty()
        }) + count_item(entries[k].0, entries[k].1),
{
    assert(entries.take(k + 1) == entries.take(k).push(entries[k]));
    law_upload_items_one_per_entry(entries.take(k), entries[k]);
    if k == 0 {
        assert(count_items(entries.take(0)) == Seq::<char>::empty());
        assert(Seq::<char>::empty() + Seq::<char>::empty() + count_item(entries[0].0, entries[0].1)
            =~= count_item(entries[0].0, entries[0].1));
    }
}

/// The signed text is the timestamp, the method and the path, each followed by a line
/// feed, and then the whole body: it starts with the timestamp, ends with the entire body,
/// and is seven characters longer than the three together.
pub proof fn law_signature_covers_whole_body(t: Seq<char>, p: Seq<char>, b: Seq<char>)
    ensures
        signing_message(t, p, b).len() == t.len() + p.len() + b.len() + 7,
        signing_message(t, p, b).take(t.len() as int) == t,
        signing_message(t, p, b).skip(signing_message(t, p, b).len() - b.len()) == b,
        signing_message(t, p, b) == t + seq!['\n', 'P', 'O', 'S', 'T', '\n'] + p + seq!['\n'] + b,
{
    reveal_strlit("\n");
    reveal_strlit("POST");
    let m = signing_message(t, p, b);
    assert("\n"@ =~= seq!['\n']);
    assert("POST"@ =~= seq!['P', 'O', 'S', 'T']);
    assert(m =~= t + seq!['\n', 'P', 'O', 'S', 'T', '\n'] + p + seq!['\n'] + b);
    assert(m.take(t.len() as int) =~= t);
    assert(m.skip(m.len() - b.len()) =~= b);
}

/// Every looked-up video is recorded, and nothing else: among the first `n` pairs, each id
/// is present, every present id is one of them, and an id's count is the one stored with
/// its last occurrence.
pub proof fn law_looked_up_counts_records_every_pair(
    ids: Seq<String>,
    stored: Seq<Option<String>>,
    n: nat,
)
    requires
        n <= ids.len(),
        n <= stored.len(),
    ensures
        forall|k: int| 0 <= k < n ==> #[trigger] looked_up_counts(ids, stored, n).dom().contains(
            ids[k]@,
        ),
        forall|id: Seq<char>| #[trigger]
            looked_up_counts(ids, stored, n).dom().contains(id) ==> exists|k: int|
                0 <= k < n && ids[k]@ == id,
        forall|k: int|
            0 <= k < n && (forall|j: int| k < j < n ==> ids[j]@ != ids[k]@) ==> #[trigger]
                looked_up_counts(ids, stored, n)[ids[k]@] == stored_count(stored_text(stored[k])),
    decreases n,
{
    if n > 0 {
        let m = (n - 1) as nat;
        law_looked_up_counts_records_every_pair(ids, stored, m);
        let prev = looked_up_counts(ids, stored, m);
        let cur = looked_up_counts(ids, stored, n);
        assert(cur == prev.insert(ids[m as int]@, stored_count(stored_text(stored[m as int]))));
        assert forall|k: int| 0 <= k < n implies #[trigger] cur.dom().contains(ids[k]@) by {
            if k < m {
                assert(prev.dom().contains(ids[k]@));
            }
        }
        assert forall|id: Seq<char>| #[trigger] cur.dom().contains(id) implies exists|k: int|
            0 <= k < n && ids[k]@ == id by {
            if id != ids[m as int]@ {
                assert(prev.dom().contains(id));
                let k = choose|k: int| 0 <= k < m && ids[k]@ == id;
                assert(0 <= k < n && ids[k]@ == id);
            } else {
                assert(ids[m as int]@ == id);
            }
        }
        assert forall|k: int|
            0 <= k < n && (forall|j: int| k < j < n ==> ids[j]@ != ids[k]@) implies #[trigger] cur[ids[k]@]
                == stored_count(stored_text(stored[k])) by {
            if k < m {
                assert(ids[m as int]@ != ids[k]@);
                assert(forall|j: int| k < j < m ==> ids[j]@ != ids[k]@);
                assert(prev[ids[k]@] == stored_count(stored_text(stored[k])));
            }
        }
    }
}

} // verus!
