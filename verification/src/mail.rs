use vstd::prelude::*;
use vstd::multiset::Multiset;
use vstd::string::StrSliceExecFns;
use vstd::string::StringExecFns;
use crate::errors::MailError;
use crate::mail_filters::{HeaderField, HeaderFilter};

verus! {

broadcast use vstd::seq_lib::group_to_multiset_ensures;

/// What the RFC 2822 date parser yields for a text: the instant as a unix
/// timestamp, or nothing when the text is not a valid RFC 2822 date.
pub uninterp spec fn rfc2822_timestamp_of(s: Seq<char>) -> Option<i64>;

/// Relies on chrono's `DateTime::parse_from_rfc2822` and
/// `DateTime::timestamp`: the parsed instant is a function of the text
/// alone.
#[verifier::external_body]
fn parse_rfc2822(s: &str) -> (r: Option<i64>)
    ensures
        r == rfc2822_timestamp_of(s@),
{
    match chrono::DateTime::parse_from_rfc2822(s) {
        Ok(d) => Some(d.timestamp()),
        Err(_) => None,
    }
}

/// What RFC 3339 formatting yields for a unix timestamp, or nothing when the
/// timestamp lies outside the representable range.
pub uninterp spec fn rfc3339_of(t: i64) -> Option<Seq<char>>;

/// Relies on chrono's `DateTime::from_timestamp` and `to_rfc3339`: the
/// rendered text is a function of the timestamp alone.
#[verifier::external_body]
fn format_rfc3339(t: i64) -> (r: Option<String>)
    ensures
        match r {
            Some(s) => rfc3339_of(t) == Some(s@),
            None => rfc3339_of(t) is None,
        },
{
    chrono::DateTime::from_timestamp(t, 0).map(|d| d.to_rfc3339())
}

/// The text with leading and trailing whitespace removed, as `str::trim`
/// defines whitespace.
pub uninterp spec fn trimmed_of(s: Seq<char>) -> Seq<char>;

/// Relies on `str::trim`: returns the text without leading or trailing
/// whitespace.
#[verifier::external_body]
fn trim_str<'a>(s: &'a str) -> (r: &'a str)
    ensures
        r@ == trimmed_of(s@),
{
    s.trim()
}

/// The parsed fields of one raw message: the From, To and Subject header
/// texts, the Date header as a unix timestamp, and the concatenation of all
/// text bodies.
pub struct MailFields {
    pub from: Option<Seq<char>>,
    pub to: Option<Seq<char>>,
    pub date: Option<i64>,
    pub subject: Option<Seq<char>>,
    pub body: Seq<char>,
}

/// What the message parser yields for raw message bytes, or nothing when the
/// bytes are not a parsable message.
pub uninterp spec fn parsed_mail_of(raw: Seq<u8>) -> Option<MailFields>;

/// A parsed mail: a read-only projection of one raw protocol message,
/// remembering the provider's positional index it was fetched under.
#[derive(Debug, Clone)]
pub struct Mail {
    pub ord_num: u32,
    pub from: Option<String>,
    pub to: Option<String>,
    pub date: Option<i64>,
    pub subject: Option<String>,
    pub body: String,
}

/// Mathematical image of a parsed mail.
pub struct MailView {
    pub ord_num: u32,
    pub fields: MailFields,
}

impl View for Mail {
    type V = MailView;

    open spec fn view(&self) -> MailView {
        MailView {
            ord_num: self.ord_num,
            fields: MailFields {
                from: match self.from {
                    Some(s) => Some(s@),
                    None => None,
                },
                to: match self.to {
                    Some(s) => Some(s@),
                    None => None,
                },
                date: self.date,
                subject: match self.subject {
                    Some(s) => Some(s@),
                    None => None,
                },
                body: self.body@,
            },
        }
    }
}

/// Relies on mail_parser's `MessageParser::parse` and the accessors
/// `header_raw`, `date`, `subject` and `text_bodies`: whether the bytes
/// parse, and every extracted field, is a function of the raw bytes alone.
#[verifier::external_body]
fn parse_mail_bytes(raw: &Vec<u8>, ord_num: u32) -> (r: Option<Mail>)
    ensures
        match r {
            Some(m) => parsed_mail_of(raw@) == Some(m@.fields) && m@.ord_num == ord_num,
            None => parsed_mail_of(raw@) is None,
        },
{
    let msg = mail_parser::MessageParser::default().parse(raw.as_slice())?;
    Some(Mail {
        ord_num,
        from: msg.header_raw("from").map(|v| v.to_owned()),
        to: msg.header_raw("to").map(|v| v.to_owned()),
        date: msg.date().map(|d| d.to_timestamp()),
        subject: msg.subject().map(|v| v.to_owned()),
        body: msg
            .text_bodies()
            .map(|p| p.text_contents().unwrap_or(""))
            .collect::<Vec<_>>()
            .join(""),
    })
}

/// Position `i` holds the first colon of `s`.
pub open spec fn is_first_colon(s: Seq<char>, i: int) -> bool {
    0 <= i < s.len() && s[i] == ':' && forall|j: int| 0 <= j < i ==> s[j] != ':'
}

pub open spec fn has_colon(s: Seq<char>) -> bool {
    exists|i: int| 0 <= i < s.len() && s[i] == ':'
}

/// The value part of a header line whose first colon stands at `i`: all that
/// follows the colon, trimmed.
pub open spec fn date_value_of(s: Seq<char>, i: int) -> Seq<char> {
    trimmed_of(s.subrange(i + 1, s.len() as int))
}

/// The header line parses to timestamp `t`.
pub open spec fn header_yields(line: Seq<char>, t: i64) -> bool {
    exists|i: int|
        #[trigger] is_first_colon(line, i) && rfc2822_timestamp_of(date_value_of(line, i)) == Some(
            t,
        )
}

/// The header line has no value, or its value is not an RFC 2822 date.
pub open spec fn header_fails(line: Seq<char>) -> bool {
    ||| !has_colon(line)
    ||| exists|i: int|
        #[trigger] is_first_colon(line, i) && rfc2822_timestamp_of(date_value_of(line, i)) is None
}

/// Parses one raw `Date:` header line to the instant it names: the text
/// after the first colon, trimmed, read as an RFC 2822 date. A missing colon
/// or an unparsable value is an error — never silently a default date.
pub fn parse_date_header(line: &str) -> (r: Result<i64, MailError>)
    ensures
        match r {
            Ok(t) => header_yields(line@, t),
            Err(e) => e == MailError::DateParseFailed && header_fails(line@),
        },
{
    let n = line.unicode_len();
    let mut i: usize = 0;
    while i < n
        invariant
            0 <= i <= n,
            n == line@.len(),
            forall|j: int| 0 <= j < i ==> line@[j] != ':',
        decreases n - i,
    {
        if line.get_char(i) == ':' {
            proof {
                assert(is_first_colon(line@, i as int));
            }
            let rest = line.substring_char(i + 1, n);
            let value = trim_str(rest);
            match parse_rfc2822(value) {
                Some(t) => {
                    return Ok(t);
                },
                None => {
                    return Err(MailError::DateParseFailed);
                },
            }
        }
        i += 1;
    }
    proof {
        assert(!has_colon(line@));
    }
    Err(MailError::DateParseFailed)
}

/// Parses the `Date:` header of every listed message into a `(timestamp,
/// index)` pair, in listing order. One bad date aborts the whole ranking:
/// the skip-and-continue alternative would silently hide messages, so it is
/// deliberately not taken.
pub fn rank_headers(headers: &Vec<(u32, String)>) -> (r: Result<Vec<(i64, u32)>, MailError>)
    ensures
        match r {
            Ok(pairs) => pairs@.len() == headers@.len() && forall|k: int|
                0 <= k < pairs@.len() ==> (#[trigger] pairs@[k]).1 == headers@[k].0
                    && header_yields(headers@[k].1@, pairs@[k].0),
            Err(e) => e == MailError::DateParseFailed && exists|k: int|
                0 <= k < headers@.len() && header_fails((#[trigger] headers@[k]).1@),
        },
{
    let mut pairs: Vec<(i64, u32)> = Vec::new();
    let mut k: usize = 0;
    while k < headers.len()
        invariant
            0 <= k <= headers@.len(),
            pairs@.len() == k,
            forall|q: int|
                0 <= q < k ==> (#[trigger] pairs@[q]).1 == headers@[q].0 && header_yields(
                    headers@[q].1@,
                    pairs@[q].0,
                ),
        decreases headers@.len() - k,
    {
        match parse_date_header(headers[k].1.as_str()) {
            Ok(t) => {
                pairs.push((t, headers[k].0));
            },
            Err(e) => {
                return Err(e);
            },
        }
        k += 1;
    }
    Ok(pairs)
}

/// Newest first: each date is at least as late as every date after it.
pub open spec fn sorted_desc(s: Seq<(i64, u32)>) -> bool {
    forall|a: int, b: int| 0 <= a < b < s.len() ==> (#[trigger] s[a]).0 >= (#[trigger] s[b]).0
}

/// Sorts `(timestamp, index)` pairs newest first. The result is a
/// permutation: the multiset of pairs is exactly preserved. Pairs with equal
/// timestamps keep their listing order.
pub fn sort_by_date_desc(v: Vec<(i64, u32)>) -> (r: Vec<(i64, u32)>)
    ensures
        sorted_desc(r@),
        r@.to_multiset() == v@.to_multiset(),
{
    let mut rest = v;
    let mut out: Vec<(i64, u32)> = Vec::new();
    while rest.len() > 0
        invariant
            sorted_desc(out@),
            out@.to_multiset().add(rest@.to_multiset()) == v@.to_multiset(),
            forall|a: int, b: int|
                0 <= a < out@.len() && 0 <= b < rest@.len() ==> (#[trigger] out@[a]).0 >= (
                #[trigger] rest@[b]).0,
        decreases rest@.len(),
    {
        let mut imax: usize = 0;
        let mut j: usize = 1;
        while j < rest.len()
            invariant
                0 < rest@.len(),
                0 <= imax < j <= rest@.len(),
                forall|q: int| 0 <= q < j ==> rest@[imax as int].0 >= (#[trigger] rest@[q]).0,
            decreases rest@.len() - j,
        {
            if rest[j].0 > rest[imax].0 {
                imax = j;
            }
            j += 1;
        }
        let ghost rest0 = rest@;
        let ghost out0 = out@;
        let p = rest.remove(imax);
        out.push(p);
        proof {
            assert(rest0.contains(p)) by {
                assert(rest0[imax as int] == p);
            }
            assert(rest0.to_multiset().count(p) > 0);
            assert(out@.to_multiset() =~= out0.to_multiset().insert(p));
            assert(rest@.to_multiset() =~= rest0.to_multiset().remove(p));
            assert(out@.to_multiset().add(rest@.to_multiset()) =~= v@.to_multiset());
            assert forall|a: int, b: int|
                0 <= a < out@.len() && 0 <= b < rest@.len() implies (#[trigger] out@[a]).0 >= (
            #[trigger] rest@[b]).0 by {
                let b0 = if b < imax {
                    b
                } else {
                    b + 1
                };
                assert(rest@[b] == rest0[b0]);
                if a < out0.len() {
                    assert(out@[a] == out0[a]);
                    assert(out0[a].0 >= rest0[b0].0);
                } else {
                    assert(out@[a] == p);
                    assert(p.0 >= rest0[b0].0);
                }
            }
            assert forall|a: int, b: int| 0 <= a < b < out@.len() implies (#[trigger] out@[a]).0
                >= (#[trigger] out@[b]).0 by {
                if b < out0.len() {
                    assert(out@[a] == out0[a] && out@[b] == out0[b]);
                } else {
                    assert(out@[b] == p);
                    assert(out@[a] == out0[a]);
                    assert(out0[a].0 >= rest0[imax as int].0);
                }
            }
        }
    }
    proof {
        assert(rest@.to_multiset() =~= Multiset::<(i64, u32)>::empty()) by {
            assert(rest@ =~= Seq::<(i64, u32)>::empty());
        }
        assert(out@.to_multiset() =~= v@.to_multiset());
    }
    out
}

/// The requested count, capped by how many messages there are.
pub open spec fn capped(n: int, k: int) -> int {
    if n <= k {
        n
    } else {
        k
    }
}

/// Selects the `n` most recently dated messages: exactly `min(n, k)` pairs
/// for a mailbox of `k`, newest first, drawn from the given pairs — the
/// leading slice of some newest-first permutation of them.
pub fn select_recent(dated: Vec<(i64, u32)>, n: usize) -> (r: Vec<(i64, u32)>)
    ensures
        r@.len() == capped(n as int, dated@.len() as int),
        sorted_desc(r@),
        exists|s: Seq<(i64, u32)>|
            #![auto]
            sorted_desc(s) && s.to_multiset() == dated@.to_multiset() && r@ == s.take(
                r@.len() as int,
            ),
{
    let ghost dated0 = dated@;
    let mut s = sort_by_date_desc(dated);
    let ghost full = s@;
    if n < s.len() {
        s.truncate(n);
    }
    proof {
        assert(s@ =~= full.take(s@.len() as int));
        assert(sorted_desc(s@)) by {
            assert forall|a: int, b: int| 0 <= a < b < s@.len() implies (#[trigger] s@[a]).0 >= (
            #[trigger] s@[b]).0 by {
                assert(s@[a] == full[a] && s@[b] == full[b]);
            }
        }
        assert(full.to_multiset().len() == full.len());
        assert(dated0.to_multiset().len() == dated0.len());
        assert(full.len() == dated0.len());
    }
    s
}

/// Law: the selection always has exactly `min(n, k)` entries for a listing
/// of `k` dated messages, stands in newest-first date order, and every entry
/// is one of the listed pairs.
pub proof fn lemma_selection_shape(
    dated: Seq<(i64, u32)>,
    s: Seq<(i64, u32)>,
    n: int,
    r: Seq<(i64, u32)>,
)
    requires
        sorted_desc(s),
        s.to_multiset() == dated.to_multiset(),
        r == s.take(capped(n, dated.len() as int)),
        0 <= n,
    ensures
        r.len() == capped(n, dated.len() as int),
        sorted_desc(r),
        forall|j: int| 0 <= j < r.len() ==> dated.to_multiset().count(#[trigger] r[j]) > 0,
{
    assert(s.to_multiset().len() == s.len());
    assert(dated.to_multiset().len() == dated.len());
    assert(s.len() == dated.len());
    assert forall|a: int, b: int| 0 <= a < b < r.len() implies (#[trigger] r[a]).0 >= (
    #[trigger] r[b]).0 by {
        assert(r[a] == s[a] && r[b] == s[b]);
    }
    assert forall|j: int| 0 <= j < r.len() implies dated.to_multiset().count(#[trigger] r[j])
        > 0 by {
        assert(r[j] == s[j]);
        assert(s.contains(s[j]));
        assert(s.to_multiset().count(s[j]) > 0);
    }
}

/// The decimal digits of `n`, most significant first.
pub open spec fn dec_str(n: nat) -> Seq<char>
    decreases n,
{
    if n < 10 {
        seq![digit_char(n)]
    } else {
        dec_str(n / 10).push(digit_char(n % 10))
    }
}

pub open spec fn digit_char(d: nat) -> char {
    if d == 0 {
        '0'
    } else if d == 1 {
        '1'
    } else if d == 2 {
        '2'
    } else if d == 3 {
        '3'
    } else if d == 4 {
        '4'
    } else if d == 5 {
        '5'
    } else if d == 6 {
        '6'
    } else if d == 7 {
        '7'
    } else if d == 8 {
        '8'
    } else {
        '9'
    }
}

fn digit_str(d: u32) -> (r: &'static str)
    requires
        d < 10,
    ensures
        r@ == seq![digit_char(d as nat)],
{
    let r = match d {
        0 => "0",
        1 => "1",
        2 => "2",
        3 => "3",
        4 => "4",
        5 => "5",
        6 => "6",
        7 => "7",
        8 => "8",
        _ => "9",
    };
    proof {
        reveal_strlit("0");
        reveal_strlit("1");
        reveal_strlit("2");
        reveal_strlit("3");
        reveal_strlit("4");
        reveal_strlit("5");
        reveal_strlit("6");
        reveal_strlit("7");
        reveal_strlit("8");
        reveal_strlit("9");
        assert(r@ =~= seq![digit_char(d as nat)]);
    }
    r
}

/// Appends the decimal form of `n`.
fn append_dec(out: &mut String, n: u32)
    ensures
        final(out)@ == old(out)@ + dec_str(n as nat),
    decreases n,
{
    if n < 10 {
        out.append(digit_str(n));
    } else {
        append_dec(out, n / 10);
        out.append(digit_str(n % 10));
        proof {
            assert(final(out)@ =~= old(out)@ + dec_str(n as nat));
        }
    }
}

/// The comma-separated decimal list of the indices, as the protocol's
/// message-set syntax wants it.
pub open spec fn spec_index_list(s: Seq<u32>) -> Seq<char>
    decreases s.len(),
{
    if s.len() == 0 {
        Seq::empty()
    } else if s.len() == 1 {
        dec_str(s[0] as nat)
    } else {
        spec_index_list(s.drop_last()) + ","@ + dec_str(s.last() as nat)
    }
}

/// Renders a message-index list as the protocol's comma-separated set.
pub fn join_indices(indices: &Vec<u32>) -> (r: String)
    ensures
        r@ == spec_index_list(indices@),
{
    let mut out = String::new();
    let mut i: usize = 0;
    while i < indices.len()
        invariant
            0 <= i <= indices@.len(),
            out@ == spec_index_list(indices@.take(i as int)),
        decreases indices@.len() - i,
    {
        proof {
            assert(indices@.take(i + 1).drop_last() =~= indices@.take(i as int));
            assert(indices@.take(i + 1).last() == indices@[i as int]);
        }
        if i > 0 {
            out.append(",");
        }
        append_dec(&mut out, indices[i]);
        proof {
            if i == 0 {
                assert(out@ =~= spec_index_list(indices@.take(i + 1)));
            } else {
                assert(out@ =~= spec_index_list(indices@.take(i + 1)));
            }
        }
        i += 1;
    }
    proof {
        assert(indices@.take(indices@.len() as int) =~= indices@);
    }
    out
}

/// The index half of `(timestamp, index)` pairs, order kept.
pub fn indices_of(pairs: &Vec<(i64, u32)>) -> (r: Vec<u32>)
    ensures
        r@.len() == pairs@.len(),
        forall|j: int| 0 <= j < r@.len() ==> (#[trigger] r@[j]) == pairs@[j].1,
{
    let mut r: Vec<u32> = Vec::new();
    let mut i: usize = 0;
    while i < pairs.len()
        invariant
            0 <= i <= pairs@.len(),
            r@.len() == i,
            forall|j: int| 0 <= j < i ==> (#[trigger] r@[j]) == pairs@[j].1,
        decreases pairs@.len() - i,
    {
        r.push(pairs[i].1);
        i += 1;
    }
    r
}

/// The query that fetches only the Date header: the header filter for a
/// single unnegated Date selector, in the protocol's peek syntax.
pub fn date_fetch_query() -> (r: String)
    ensures
        r@ == "BODY.PEEK[HEADER.FIELDS (DATE)]"@,
{
    let mut fields: Vec<HeaderField> = Vec::new();
    fields.push(HeaderField::Date(None));
    let filter = HeaderFilter::new(fields, false);
    proof {
        assert(crate::mail_filters::seq_has_date(filter.fields_seq())) by {
            assert(filter.fields_seq()[0] is Date);
        }
    }
    let mut out = String::from_str("BODY.PEEK[");
    match filter.filter_str() {
        Some(s) => out.append(s.as_str()),
        None => proof {
            assert(false);
        },
    }
    out.append("]");
    proof {
        reveal_strlit("BODY.PEEK[");
        reveal_strlit("HEADER.FIELDS");
        reveal_strlit(" (");
        reveal_strlit("SUBJECT");
        reveal_strlit("TO");
        reveal_strlit("FROM");
        reveal_strlit("DATE");
        reveal_strlit(")");
        reveal_strlit("]");
        reveal_strlit("BODY.PEEK[HEADER.FIELDS (DATE)]");
        assert(out@ =~= "BODY.PEEK[HEADER.FIELDS (DATE)]"@);
    }
    out
}

/// The raw bytes fetched under index `idx`, if any: the first fetched item
/// carrying that index.
pub open spec fn find_raw(fetched: Seq<(u32, Vec<u8>)>, idx: u32) -> Option<Seq<u8>>
    decreases fetched.len(),
{
    if fetched.len() == 0 {
        None
    } else if fetched.first().0 == idx {
        Some(fetched.first().1@)
    } else {
        find_raw(fetched.drop_first(), idx)
    }
}

proof fn lemma_find_raw_at(fetched: Seq<(u32, Vec<u8>)>, idx: u32, k: int)
    requires
        0 <= k < fetched.len(),
        fetched[k].0 == idx,
        forall|q: int| 0 <= q < k ==> (#[trigger] fetched[q]).0 != idx,
    ensures
        find_raw(fetched, idx) == Some(fetched[k].1@),
    decreases k,
{
    if k == 0 {
    } else {
        assert(fetched[0].0 != idx);
        lemma_find_raw_at(fetched.drop_first(), idx, k - 1);
        assert(fetched.drop_first()[k - 1] == fetched[k]);
    }
}

proof fn lemma_find_raw_none(fetched: Seq<(u32, Vec<u8>)>, idx: u32)
    requires
        forall|q: int| 0 <= q < fetched.len() ==> (#[trigger] fetched[q]).0 != idx,
    ensures
        find_raw(fetched, idx) is None,
    decreases fetched.len(),
{
    if fetched.len() == 0 {
    } else {
        assert(fetched[0].0 != idx);
        lemma_find_raw_none(fetched.drop_first(), idx);
    }
}

/// The outcome owed to one requested index: no fetched bytes is a protocol
/// failure for that slot, unparsable bytes fail only that slot, and parsable
/// bytes yield the parsed mail under that index.
pub open spec fn slot_for(fetched: Seq<(u32, Vec<u8>)>, idx: u32) -> Result<MailView, MailError> {
    match find_raw(fetched, idx) {
        None => Err(MailError::ProtocolError),
        Some(raw) => match parsed_mail_of(raw) {
            None => Err(MailError::MailParseFailed),
            Some(f) => Ok(MailView { ord_num: idx, fields: f }),
        },
    }
}

/// Mathematical image of one assembled slot.
pub open spec fn slot_view(r: Result<Mail, MailError>) -> Result<MailView, MailError> {
    match r {
        Ok(m) => Ok(m@),
        Err(e) => Err(e),
    }
}

fn find_message<'a>(fetched: &'a Vec<(u32, Vec<u8>)>, idx: u32) -> (r: Option<&'a Vec<u8>>)
    ensures
        match r {
            Some(raw) => find_raw(fetched@, idx) == Some(raw@),
            None => find_raw(fetched@, idx) is None,
        },
{
    let mut k: usize = 0;
    while k < fetched.len()
        invariant
            0 <= k <= fetched@.len(),
            forall|q: int| 0 <= q < k ==> (#[trigger] fetched@[q]).0 != idx,
        decreases fetched@.len() - k,
    {
        if fetched[k].0 == idx {
            proof {
                lemma_find_raw_at(fetched@, idx, k as int);
            }
            return Some(&fetched[k].1);
        }
        k += 1;
    }
    proof {
        lemma_find_raw_none(fetched@, idx);
    }
    None
}

/// Restores newest-first order over the provider's batch-fetch answer: one
/// slot per ranked index, in ranking order, each slot independently the
/// parse of the bytes fetched under its index.
pub fn assemble_mails(ranked: &Vec<(i64, u32)>, fetched: &Vec<(u32, Vec<u8>)>) -> (r: Vec<
    Result<Mail, MailError>,
>)
    ensures
        r@.len() == ranked@.len(),
        forall|j: int|
            0 <= j < r@.len() ==> slot_view(#[trigger] r@[j]) == slot_for(fetched@, ranked@[j].1),
{
    let mut r: Vec<Result<Mail, MailError>> = Vec::new();
    let mut j: usize = 0;
    while j < ranked.len()
        invariant
            0 <= j <= ranked@.len(),
            r@.len() == j,
            forall|q: int|
                0 <= q < j ==> slot_view(#[trigger] r@[q]) == slot_for(fetched@, ranked@[q].1),
        decreases ranked@.len() - j,
    {
        let idx = ranked[j].1;
        match find_message(fetched, idx) {
            None => {
                r.push(Err(MailError::ProtocolError));
            },
            Some(raw) => {
                match parse_mail_bytes(raw, idx) {
                    Some(m) => {
                        r.push(Ok(m));
                    },
                    None => {
                        r.push(Err(MailError::MailParseFailed));
                    },
                }
            },
        }
        j += 1;
    }
    r
}

/// How an optional header text is displayed: trimmed, or a dash.
pub open spec fn opt_field_disp(o: Option<Seq<char>>) -> Seq<char> {
    match o {
        Some(s) => trimmed_of(s),
        None => "-"@,
    }
}

/// How the date is displayed: the RFC 3339 form of the instant, or a dash.
pub open spec fn date_disp(d: Option<i64>) -> Seq<char> {
    match d {
        Some(t) => match rfc3339_of(t) {
            Some(s) => trimmed_of(s),
            None => "-"@,
        },
        None => "-"@,
    }
}

/// The full display form of a parsed mail.
pub open spec fn spec_render(v: MailView) -> Seq<char> {
    "From:       "@ + opt_field_disp(v.fields.from) + "\nTo:         "@ + opt_field_disp(
        v.fields.to,
    ) + "\nSend Date:  "@ + date_disp(v.fields.date) + "\n\n\nSubject:    "@ + opt_field_disp(
        v.fields.subject,
    ) + "\n\n"@ + trimmed_of(v.fields.body)
}

impl Mail {
    /// Renders the mail for display, each field trimmed and missing fields
    /// shown as a dash.
    pub fn render(&self) -> (r: String)
        ensures
            r@ == spec_render(self@),
    {
        let mut out = String::from_str("From:       ");
        match &self.from {
            Some(s) => out.append(trim_str(s.as_str())),
            None => out.append("-"),
        }
        out.append("\nTo:         ");
        match &self.to {
            Some(s) => out.append(trim_str(s.as_str())),
            None => out.append("-"),
        }
        out.append("\nSend Date:  ");
        match self.date {
            Some(t) => {
                match format_rfc3339(t) {
                    Some(s) => out.append(trim_str(s.as_str())),
                    None => out.append("-"),
                }
            },
            None => out.append("-"),
        }
        out.append("\n\n\nSubject:    ");
        match &self.subject {
            Some(s) => out.append(trim_str(s.as_str())),
            None => out.append("-"),
        }
        out.append("\n\n");
        out.append(trim_str(self.body.as_str()));
        proof {
            assert(out@ =~= spec_render(self@));
        }
        out
    }
}

/// A named mailbox on the provider.
#[derive(Debug, Clone)]
pub struct MailBox<'a> {
    name: &'a str,
}

impl<'a> MailBox<'a> {
    pub closed spec fn spec_name(&self) -> Seq<char> {
        self.name@
    }

    pub fn new(name: &'a str) -> (r: Self)
        ensures
            r.spec_name() == name@,
    {
        MailBox { name }
    }

    pub fn name(&self) -> (r: &str)
        ensures
            r@ == self.spec_name(),
    {
        self.name
    }
}

} // verus!
