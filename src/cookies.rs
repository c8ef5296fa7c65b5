//! Session cookies: lookup, the `Cookie` header, and numbers held in them.
use vstd::prelude::*;
use vstd::string::{StringExecFns, StringSliceAdditionalSpecFns};
use crate::json::{as_string, json_parsed, member, member_of, parse_json, str_of, Json};

verus! {

/// The value of the first cookie of `jar` named `name`.
pub open spec fn cookie_of(jar: Seq<(String, String)>, name: Seq<char>) -> Option<Seq<char>>
    decreases jar.len(),
{
    if jar.len() == 0 {
        None
    } else if jar[0].0@ == name {
        Some(jar[0].1@)
    } else {
        cookie_of(jar.drop_first(), name)
    }
}

/// The value of the first cookie of `jar` named `name`.
pub fn cookie_value<'a>(jar: &'a Vec<(String, String)>, name: &String) -> (r: Option<&'a String>)
    ensures
        r matches Some(v) ==> cookie_of(jar@, name@) == Some(v@),
        r is None ==> cookie_of(jar@, name@) is None,
{
    let mut i: usize = 0;
    assert(jar@.subrange(0, jar@.len() as int) =~= jar@);
    while i < jar.len()
        invariant
            i <= jar@.len(),
            cookie_of(jar@, name@) == cookie_of(jar@.subrange(i as int, jar@.len() as int), name@),
        decreases jar@.len() - i,
    {
        let ghost rest = jar@.subrange(i as int, jar@.len() as int);
        let entry = &jar[i];
        assert(rest[0] == jar@[i as int]);
        if entry.0 == *name {
            return Some(&entry.1);
        }
        assert(rest.drop_first() =~= jar@.subrange(i + 1, jar@.len() as int));
        i += 1;
    }
    None
}

/// The `Cookie` header text for `jar`: `name=value; ` for each cookie, in order.
pub open spec fn cookie_header_text(jar: Seq<(String, String)>) -> Seq<char>
    decreases jar.len(),
{
    if jar.len() == 0 {
        seq![]
    } else {
        cookie_header_text(jar.drop_last()) + jar.last().0@ + "="@ + jar.last().1@ + "; "@
    }
}

/// Writes the `Cookie` header text for `jar`.
pub fn cookie_header(jar: &Vec<(String, String)>) -> (r: String)
    ensures
        r@ == cookie_header_text(jar@),
{
    let mut s = String::new();
    let mut i: usize = 0;
    while i < jar.len()
        invariant
            i <= jar@.len(),
            s@ == cookie_header_text(jar@.take(i as int)),
        decreases jar@.len() - i,
    {
        let entry = &jar[i];
        s.append(entry.0.as_str());
        s.append("=");
        s.append(entry.1.as_str());
        s.append("; ");
        assert(jar@.take(i + 1).drop_last() =~= jar@.take(i as int));
        i += 1;
    }
    assert(jar@.take(jar@.len() as int) =~= jar@);
    s
}

/// Whether every byte of `b` is an ASCII digit.
pub open spec fn all_digits(b: Seq<u8>) -> bool {
    forall|i: int| 0 <= i < b.len() ==> 48 <= #[trigger] b[i] <= 57
}

/// The number that the ASCII digits `b` write in decimal.
pub open spec fn digits_value(b: Seq<u8>) -> nat
    decreases b.len(),
{
    if b.len() == 0 {
        0
    } else {
        digits_value(b.drop_last()) * 10 + (b.last() - 48) as nat
    }
}

/// The digits of a decimal text after an optional leading `+`.
pub open spec fn unsigned_digits(b: Seq<u8>) -> Seq<u8> {
    if b.len() > 0 && b[0] == 43 {
        b.drop_first()
    } else {
        b
    }
}

/// The `u64` that the text with bytes `b` writes: an optional `+`, then one
/// or more decimal digits, for a value that fits in 64 bits.
pub open spec fn parsed_u64(b: Seq<u8>) -> Option<u64> {
    let d = unsigned_digits(b);
    if d.len() > 0 && all_digits(d) && digits_value(d) <= u64::MAX {
        Some(digits_value(d) as u64)
    } else {
        None
    }
}

proof fn lemma_digits_grow(d: Seq<u8>, i: int)
    requires
        0 <= i <= d.len(),
        all_digits(d),
    ensures
        digits_value(d.take(i)) <= digits_value(d),
    decreases d.len() - i,
{
    if i < d.len() {
        lemma_digits_grow(d, i + 1);
        assert(d.take(i + 1).drop_last() =~= d.take(i));
    } else {
        assert(d.take(i) =~= d);
    }
}

/// Reads a `u64` written in decimal, with an optional leading `+`.
pub fn parse_u64(s: &str) -> (r: Option<u64>)
    ensures
        r == parsed_u64(s.spec_bytes()),
{
    let b = s.as_bytes();
    let start: usize = if b.len() > 0 && b[0] == 43 {
        1
    } else {
        0
    };
    let ghost d = unsigned_digits(b@);
    assert(d =~= b@.subrange(start as int, b@.len() as int));
    if start >= b.len() {
        return None;
    }
    let mut acc: u64 = 0;
    let mut i: usize = start;
    while i < b.len()
        invariant
            start <= i <= b@.len(),
            b@ == s.spec_bytes(),
            d == unsigned_digits(b@),
            d =~= b@.subrange(start as int, b@.len() as int),
            all_digits(d.take(i - start)),
            acc as nat == digits_value(d.take(i - start)),
        decreases b@.len() - i,
    {
        let c = b[i];
        assert(c == d[i - start]);
        if c < 48 || c > 57 {
            assert(!all_digits(d));
            return None;
        }
        assert(d.take(i - start + 1).drop_last() =~= d.take(i - start));
        let digit = (c - 48) as u64;
        if acc > (u64::MAX - digit) / 10 {
            proof {
                let m = u64::MAX as int;
                assert(acc * 10 + digit > m) by (nonlinear_arith)
                    requires
                        acc > (m - digit) / 10,
                        0 <= digit <= 9,
                ;
                assert(all_digits(d.take(i - start + 1)));
                if all_digits(d) {
                    lemma_digits_grow(d, i - start + 1);
                }
            }
            return None;
        }
        acc = acc * 10 + digit;
        i += 1;
    }
    assert(d.take(i - start) =~= d);
    Some(acc)
}


/// The views of a cookie jar.
pub open spec fn jar_view(jar: Seq<(String, String)>) -> Seq<(Seq<char>, Seq<char>)> {
    jar.map_values(|p: (String, String)| (p.0@, p.1@))
}

/// The cookies that the login record's entries name, the last entry first;
/// an entry counts where its `name` and `value` are strings.
pub open spec fn named_cookies(entries: Seq<Json>) -> Seq<(Seq<char>, Seq<char>)>
    decreases entries.len(),
{
    if entries.len() == 0 {
        seq![]
    } else {
        let rest = named_cookies(entries.drop_last());
        let e = Some(entries.last());
        match (str_of(member_of(e, "name"@)), str_of(member_of(e, "value"@))) {
            (Some(n), Some(v)) => seq![(n, v)] + rest,
            _ => rest,
        }
    }
}

/// The cookie jar of a login record: `buvid3` set to `buvid`, then the cookies
/// that the record's `cookies` array names, later entries before earlier ones,
/// each name kept once, at its first place: `buvid3` overrides the record, and a
/// later entry overrides an earlier one of the same name. A record without that
/// array gives an empty jar.
pub open spec fn login_cookie_jar(cookie_info: Json, buvid: Seq<char>) -> Seq<
    (Seq<char>, Seq<char>),
> {
    match member_of(Some(cookie_info), "cookies"@) {
        Some(Json::Array(entries)) => first_per_name(
            seq![("buvid3"@, buvid)] + named_cookies(entries@),
        ),
        _ => seq![],
    }
}

/// Whether some cookie of `jar` is named `name`.
pub open spec fn has_name(jar: Seq<(Seq<char>, Seq<char>)>, name: Seq<char>) -> bool {
    exists|i: int| 0 <= i < jar.len() && (#[trigger] jar[i]).0 == name
}

/// Whether no two cookies of `jar` share a name.
pub open spec fn names_unique(jar: Seq<(Seq<char>, Seq<char>)>) -> bool {
    forall|i: int, j: int| 0 <= i < j < jar.len() ==> (#[trigger] jar[i]).0 != (#[trigger] jar[j]).0
}

/// The cookies of `s`, each name kept once, at its first place.
pub open spec fn first_per_name(s: Seq<(Seq<char>, Seq<char>)>) -> Seq<(Seq<char>, Seq<char>)>
    decreases s.len(),
{
    if s.len() == 0 {
        seq![]
    } else {
        let d = first_per_name(s.drop_last());
        if has_name(d, s.last().0) {
            d
        } else {
            d.push(s.last())
        }
    }
}

/// Keeping the first cookie of each name leaves no two cookies with one name.
pub proof fn lemma_first_per_name_unique(s: Seq<(Seq<char>, Seq<char>)>)
    ensures
        names_unique(first_per_name(s)),
    decreases s.len(),
{
    if s.len() > 0 {
        lemma_first_per_name_unique(s.drop_last());
        let d = first_per_name(s.drop_last());
        if !has_name(d, s.last().0) {
            let e = d.push(s.last());
            assert forall|i: int, j: int| 0 <= i < j < e.len() implies (#[trigger] e[i]).0 != (
            #[trigger] e[j]).0 by {
                if j == d.len() {
                    assert(e[i] == d[i]);
                } else {
                    assert(e[i] == d[i] && e[j] == d[j]);
                }
            }
        }
    }
}

fn contains_name(jar: &Vec<(String, String)>, name: &String) -> (r: bool)
    ensures
        r == has_name(jar_view(jar@), name@),
{
    let mut i: usize = 0;
    while i < jar.len()
        invariant
            i <= jar@.len(),
            forall|k: int| 0 <= k < i ==> (#[trigger] jar@[k]).0@ != name@,
        decreases jar@.len() - i,
    {
        if jar[i].0 == *name {
            assert(jar_view(jar@)[i as int].0 == name@);
            return true;
        }
        i += 1;
    }
    assert forall|k: int| 0 <= k < jar@.len() implies (#[trigger] jar_view(jar@)[k]).0 != name@ by {
        assert(jar_view(jar@)[k].0 == jar@[k].0@);
    }
    false
}

/// The cookies of `all`, each name kept once, at its first place.
pub fn unique_by_name(all: &Vec<(String, String)>) -> (r: Vec<(String, String)>)
    ensures
        jar_view(r@) == first_per_name(jar_view(all@)),
        names_unique(jar_view(r@)),
{
    let mut out: Vec<(String, String)> = Vec::new();
    let mut i: usize = 0;
    assert(jar_view(out@) =~= first_per_name(jar_view(all@).take(0)));
    while i < all.len()
        invariant
            i <= all@.len(),
            jar_view(out@) == first_per_name(jar_view(all@).take(i as int)),
        decreases all@.len() - i,
    {
        let ghost s = jar_view(all@).take(i + 1);
        assert(s.drop_last() =~= jar_view(all@).take(i as int));
        assert(s.last() == (all@[i as int].0@, all@[i as int].1@));
        let entry = &all[i];
        if !contains_name(&out, &entry.0) {
            let ghost before = out@;
            out.push((entry.0.clone(), entry.1.clone()));
            assert(jar_view(out@) =~= jar_view(before).push(s.last()));
        }
        i += 1;
    }
    assert(jar_view(all@).take(all@.len() as int) =~= jar_view(all@));
    proof {
        lemma_first_per_name_unique(jar_view(all@));
    }
    out
}

/// The cookie jar for a login record's cookie information and a browser id.
pub fn bili_cookies(cookie_info: &Json, buvid: &str) -> (r: Vec<(String, String)>)
    ensures
        jar_view(r@) == login_cookie_jar(*cookie_info, buvid@),
        names_unique(jar_view(r@)),
{
    let entries = match member(Some(cookie_info), &String::from_str("cookies")) {
        Some(Json::Array(a)) => a,
        _ => {
            let empty: Vec<(String, String)> = Vec::new();
            assert(jar_view(empty@) =~= Seq::empty());
            assert(names_unique(jar_view(empty@)));
            return empty;
        },
    };
    let name_key = String::from_str("name");
    let value_key = String::from_str("value");
    let mut jar: Vec<(String, String)> = Vec::new();
    let mut i: usize = 0;
    assert(jar_view(jar@) =~= named_cookies(entries@.take(0)));
    while i < entries.len()
        invariant
            i <= entries@.len(),
            name_key@ == "name"@,
            value_key@ == "value"@,
            jar_view(jar@) == named_cookies(entries@.take(i as int)),
        decreases entries@.len() - i,
    {
        let e = Some(&entries[i]);
        let ghost before = jar@;
        assert(entries@.take(i + 1).drop_last() =~= entries@.take(i as int));
        assert(entries@.take(i + 1).last() == entries@[i as int]);
        match (as_string(member(e, &name_key)), as_string(member(e, &value_key))) {
            (Some(n), Some(v)) => {
                jar.insert(0, (n, v));
                assert(jar_view(jar@) =~= seq![(jar@[0].0@, jar@[0].1@)] + jar_view(before));
            },
            _ => {},
        }
        i += 1;
    }
    let ghost named = jar@;
    jar.insert(0, (String::from_str("buvid3"), String::from_str(buvid)));
    assert(entries@.take(entries@.len() as int) =~= entries@);
    assert(jar_view(jar@) =~= seq![("buvid3"@, buvid@)] + jar_view(named));
    unique_by_name(&jar)
}


/// The cookie information of a login record: its `cookie_info` member, or
/// `null` where it has none.
pub open spec fn cookie_info_of(record: Json) -> Json {
    match member_of(Some(record), "cookie_info"@) {
        Some(info) => info,
        None => Json::Null,
    }
}

/// The cookie jar for the login record with JSON text `record` and the browser
/// id `buvid`; `None` where the record is no JSON text.
pub fn login_cookies(record: &[u8], buvid: &str) -> (r: Option<Vec<(String, String)>>)
    ensures
        match json_parsed(record@) {
            None => r is None,
            Some(rec) => r matches Some(jar) && jar_view(jar@) == login_cookie_jar(
                cookie_info_of(rec),
                buvid@,
            ) && names_unique(jar_view(jar@)),
        },
{
    let parsed = parse_json(record);
    match &parsed {
        None => None,
        Some(rec) => {
            let null = Json::Null;
            let info = match member(Some(rec), &String::from_str("cookie_info")) {
                Some(i) => i,
                None => &null,
            };
            Some(bili_cookies(info, buvid))
        },
    }
}

} // verus!
