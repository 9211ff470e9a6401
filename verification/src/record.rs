//! The delimited record format of the output destination.
//!
//! A record is a sequence of fields joined by commas. A field holding a
//! comma, a double quote or a line break is written quoted, with inner
//! quotes doubled; every other field is written as it is. Splitting scans
//! quoted fields back and is proved to invert encoding, whatever the
//! fields hold.

use vstd::prelude::*;

verus! {

/// A character that cannot stand unquoted inside a field.
pub open spec fn csv_special(c: char) -> bool {
    c == ',' || c == '"' || c == '\n' || c == '\r'
}

/// A field that is written without quoting.
pub open spec fn plain(s: Seq<char>) -> bool {
    forall|i: int| 0 <= i < s.len() ==> !csv_special(#[trigger] s[i])
}

/// A field with every inner double quote doubled.
pub open spec fn esc_quotes(s: Seq<char>) -> Seq<char>
    decreases s.len(),
{
    if s.len() == 0 {
        Seq::empty()
    } else if s.last() == '"' {
        esc_quotes(s.drop_last()) + seq!['"', '"']
    } else {
        esc_quotes(s.drop_last()) + seq![s.last()]
    }
}

/// How one field is written: plain fields as they are, others quoted.
pub open spec fn enc_field(s: Seq<char>) -> Seq<char> {
    if plain(s) {
        s
    } else {
        seq!['"'] + esc_quotes(s) + seq!['"']
    }
}

/// Fields joined by commas.
pub open spec fn join_fields(fs: Seq<Seq<char>>) -> Seq<char>
    decreases fs.len(),
{
    if fs.len() == 0 {
        Seq::empty()
    } else if fs.len() == 1 {
        fs[0]
    } else {
        join_fields(fs.drop_last()) + seq![','] + fs.last()
    }
}

pub open spec fn views_of(fs: Seq<String>) -> Seq<Seq<char>> {
    fs.map_values(|f: String| f@)
}

/// One whole record: every field encoded, then all joined by commas.
pub open spec fn encode_fields(fs: Seq<Seq<char>>) -> Seq<char> {
    join_fields(fs.map_values(|f: Seq<char>| enc_field(f)))
}

/// How one character of a field is written inside a quoted field.
pub open spec fn esc_step(c: char) -> Seq<char> {
    if c == '"' {
        seq!['"', '"']
    } else {
        seq![c]
    }
}

/// Escaping also unfolds from the left, one character at a time.
pub proof fn lemma_esc_left(s: Seq<char>)
    requires
        s.len() >= 1,
    ensures
        esc_quotes(s) == esc_step(s[0]) + esc_quotes(s.subrange(1, s.len() as int)),
    decreases s.len(),
{
    let s1 = s.subrange(1, s.len() as int);
    if s.len() == 1 {
        assert(s.drop_last() =~= Seq::<char>::empty());
        assert(s1 =~= Seq::<char>::empty());
        assert(esc_quotes(s) =~= esc_step(s[0]) + esc_quotes(s1));
    } else {
        let d = s.drop_last();
        lemma_esc_left(d);
        let d1 = d.subrange(1, d.len() as int);
        assert(d1 =~= s1.drop_last());
        assert(d[0] == s[0]);
        assert(s1.last() == s.last());
        if s.last() == '"' {
            vstd::seq_lib::lemma_concat_associative(esc_step(s[0]), esc_quotes(d1), seq!['"', '"']);
            assert(esc_quotes(s) =~= esc_step(s[0]) + esc_quotes(s1));
        } else {
            vstd::seq_lib::lemma_concat_associative(
                esc_step(s[0]),
                esc_quotes(d1),
                seq![s.last()],
            );
            assert(esc_quotes(s) =~= esc_step(s[0]) + esc_quotes(s1));
        }
    }
}

/// Scans the body of a quoted field: the content up to the closing quote,
/// and how many characters were consumed, closing quote included. A quote
/// is doubled inside the field; a single quote closes it.
pub open spec fn scan_quoted(t: Seq<char>) -> Option<(Seq<char>, int)>
    decreases t.len(),
{
    if t.len() == 0 {
        None
    } else if t[0] == '"' {
        if t.len() >= 2 && t[1] == '"' {
            match scan_quoted(t.subrange(2, t.len() as int)) {
                Some(p) => Some((seq!['"'] + p.0, p.1 + 2)),
                None => None,
            }
        } else {
            Some((Seq::<char>::empty(), 1))
        }
    } else {
        match scan_quoted(t.subrange(1, t.len() as int)) {
            Some(p) => Some((seq![t[0]] + p.0, p.1 + 1)),
            None => None,
        }
    }
}

/// Scanning a quoted body recovers exactly the escaped field and stops at
/// its closing quote, whatever follows after a separating comma.
pub proof fn lemma_scan_quoted_inverts(f: Seq<char>, d: Seq<char>)
    requires
        d.len() == 0 || d[0] == ',',
    ensures
        scan_quoted(esc_quotes(f) + seq!['"'] + d) == Some((f, esc_quotes(f).len() as int + 1)),
    decreases f.len(),
{
    let t = esc_quotes(f) + seq!['"'] + d;
    if f.len() == 0 {
        assert(esc_quotes(f) =~= Seq::<char>::empty());
        assert(t =~= seq!['"'] + d);
        assert(t[0] == '"');
        if d.len() == 0 {
            assert(t.len() == 1);
        } else {
            assert(t[1] == ',');
        }
        assert(scan_quoted(t) == Some((Seq::<char>::empty(), 1int)));
    } else {
        lemma_esc_left(f);
        let f1 = f.subrange(1, f.len() as int);
        lemma_scan_quoted_inverts(f1, d);
        if f[0] == '"' {
            assert(t[0] == '"');
            assert(t[1] == '"');
            assert(t.subrange(2, t.len() as int) =~= esc_quotes(f1) + seq!['"'] + d);
            assert(seq!['"'] + f1 =~= f);
            assert(esc_quotes(f).len() == esc_quotes(f1).len() + 2);
        } else {
            assert(t[0] == f[0]);
            assert(t.subrange(1, t.len() as int) =~= esc_quotes(f1) + seq!['"'] + d);
            assert(seq![f[0]] + f1 =~= f);
            assert(esc_quotes(f).len() == esc_quotes(f1).len() + 1);
        }
    }
}

/// The index of the first comma or quote, or the whole length.
pub open spec fn first_break(t: Seq<char>) -> int
    decreases t.len(),
{
    if t.len() == 0 {
        0
    } else if t[0] == ',' || t[0] == '"' {
        0
    } else {
        1 + first_break(t.subrange(1, t.len() as int))
    }
}

/// Where the first break provably sits.
pub proof fn lemma_first_break_at(t: Seq<char>, m: int)
    requires
        0 <= m <= t.len(),
        forall|k: int| 0 <= k < m ==> #[trigger] t[k] != ',' && t[k] != '"',
        m < t.len() ==> (t[m] == ',' || t[m] == '"'),
    ensures
        first_break(t) == m,
    decreases t.len(),
{
    if t.len() == 0 {
    } else if m == 0 {
    } else {
        let t1 = t.subrange(1, t.len() as int);
        assert(forall|k: int| 0 <= k < m - 1 ==> #[trigger] t1[k] != ',' && t1[k] != '"') by {
            assert(forall|k: int| 0 <= k < m - 1 ==> t1[k] == t[k + 1]);
        }
        lemma_first_break_at(t1, m - 1);
    }
}

/// A plain field followed by nothing or by a comma breaks exactly at its
/// own length.
pub proof fn lemma_first_break_of_plain(f: Seq<char>, d: Seq<char>)
    requires
        plain(f),
        d.len() == 0 || d[0] == ',',
    ensures
        first_break(f + d) == f.len(),
{
    let t = f + d;
    assert(forall|k: int| 0 <= k < f.len() ==> t[k] == #[trigger] f[k]);
    assert(forall|k: int| 0 <= k < f.len() ==> !csv_special(#[trigger] f[k]));
    assert(forall|k: int| 0 <= k < f.len() ==> #[trigger] t[k] != ',' && t[k] != '"') by {
        assert(forall|k: int| 0 <= k < f.len() ==> !csv_special(#[trigger] t[k]));
    }
    if d.len() > 0 {
        assert(t[f.len() as int] == ',');
    }
    lemma_first_break_at(t, f.len() as int);
}

/// Scans a whole record into its fields: quoted fields by the quote
/// scanner, plain fields up to the next comma; a quote inside an unquoted
/// field is malformed.
pub open spec fn scan_fields(t: Seq<char>) -> Option<Seq<Seq<char>>>
    decreases t.len(),
{
    if t.len() >= 1 && t[0] == '"' {
        match scan_quoted(t.subrange(1, t.len() as int)) {
            Some(p) => {
                let n = 1 + p.1;
                if n == t.len() {
                    Some(seq![p.0])
                } else if 1 <= n < t.len() && t[n] == ',' {
                    match scan_fields(t.subrange(n + 1, t.len() as int)) {
                        Some(fs) => Some(seq![p.0] + fs),
                        None => None,
                    }
                } else {
                    None
                }
            },
            None => None,
        }
    } else {
        let j = first_break(t);
        if j == t.len() {
            Some(seq![t])
        } else if 0 <= j < t.len() && t[j] == ',' {
            match scan_fields(t.subrange(j + 1, t.len() as int)) {
                Some(fs) => Some(seq![t.take(j)] + fs),
                None => None,
            }
        } else {
            None
        }
    }
}

/// Joining also unfolds from the left, one field at a time.
pub proof fn lemma_join_left(fs: Seq<Seq<char>>)
    requires
        fs.len() >= 2,
    ensures
        join_fields(fs) == fs[0] + seq![','] + join_fields(fs.subrange(1, fs.len() as int)),
    decreases fs.len(),
{
    let tail = fs.subrange(1, fs.len() as int);
    if fs.len() == 2 {
        assert(fs.drop_last() =~= seq![fs[0]]);
        assert(tail =~= seq![fs[1]]);
        assert(join_fields(seq![fs[0]]) == fs[0]);
        assert(join_fields(tail) == fs[1]);
    } else {
        let d = fs.drop_last();
        lemma_join_left(d);
        let d1 = d.subrange(1, d.len() as int);
        assert(d1 =~= tail.drop_last());
        assert(d[0] == fs[0]);
        assert(tail.last() == fs.last());
        vstd::seq_lib::lemma_concat_associative(
            fs[0] + seq![','],
            join_fields(d1),
            seq![','] + fs.last(),
        );
        vstd::seq_lib::lemma_concat_associative(fs[0], seq![','], join_fields(d1));
        vstd::seq_lib::lemma_concat_associative(
            fs[0] + seq![','],
            join_fields(d1) + seq![','],
            fs.last(),
        );
        assert(join_fields(fs) =~= fs[0] + seq![','] + join_fields(tail));
    }
}

/// Scanning inverts encoding: the fields scanned out of an encoded record
/// are exactly the fields that were encoded, quoted or not.
pub proof fn lemma_scan_inverts_encode(fs: Seq<Seq<char>>)
    requires
        fs.len() >= 1,
    ensures
        scan_fields(encode_fields(fs)) == Some(fs),
    decreases fs.len(),
{
    let enc = fs.map_values(|f: Seq<char>| enc_field(f));
    let t = encode_fields(fs);
    if fs.len() == 1 {
        assert(enc =~= seq![enc_field(fs[0])]);
        assert(t == enc_field(fs[0]));
        if plain(fs[0]) {
            lemma_first_break_of_plain(fs[0], Seq::empty());
            assert(fs[0] + Seq::<char>::empty() =~= fs[0]);
            if t.len() >= 1 {
                assert(!csv_special(t[0]));
            }
            assert(t.take(t.len() as int) =~= t);
            assert(scan_fields(t) == Some(seq![fs[0]]));
        } else {
            assert(t[0] == '"');
            assert(t.subrange(1, t.len() as int) =~= esc_quotes(fs[0]) + seq!['"']
                + Seq::<char>::empty());
            lemma_scan_quoted_inverts(fs[0], Seq::empty());
            assert(1 + (esc_quotes(fs[0]).len() as int + 1) == t.len());
            assert(scan_fields(t) == Some(seq![fs[0]]));
        }
    } else {
        let tail = fs.subrange(1, fs.len() as int);
        lemma_scan_inverts_encode(tail);
        lemma_join_left(enc);
        assert(enc[0] == enc_field(fs[0]));
        assert(enc.subrange(1, enc.len() as int) =~= tail.map_values(
            |f: Seq<char>| enc_field(f),
        ));
        let rest = encode_fields(tail);
        let d = seq![','] + rest;
        vstd::seq_lib::lemma_concat_associative(enc_field(fs[0]), seq![','], rest);
        assert(t == enc_field(fs[0]) + d);
        assert(d[0] == ',');
        if plain(fs[0]) {
            lemma_first_break_of_plain(fs[0], d);
            assert(first_break(t) == fs[0].len());
            if t.len() >= 1 && t[0] == '"' {
                if fs[0].len() >= 1 {
                    assert(t[0] == fs[0][0]);
                    assert(!csv_special(fs[0][0]));
                } else {
                    assert(t[0] == ',');
                }
                assert(false);
            }
            let j = fs[0].len() as int;
            assert(j < t.len());
            assert(t[j] == ',');
            assert(t.take(j) =~= fs[0]);
            assert(t.subrange(j + 1, t.len() as int) =~= rest);
            assert(seq![fs[0]] + tail =~= fs);
            assert(scan_fields(t) == Some(fs));
        } else {
            assert(t[0] == '"');
            assert(t.subrange(1, t.len() as int) =~= esc_quotes(fs[0]) + seq!['"'] + d);
            lemma_scan_quoted_inverts(fs[0], d);
            let n = 1 + (esc_quotes(fs[0]).len() as int + 1);
            assert(n < t.len());
            assert(t[n] == ',');
            assert(t.subrange(n + 1, t.len() as int) =~= rest);
            assert(seq![fs[0]] + tail =~= fs);
            assert(scan_fields(t) == Some(fs));
        }
    }
}

/// Whether a field can stand unquoted.
pub fn is_plain(f: &str) -> (b: bool)
    ensures
        b == plain(f@),
{
    let n = f.unicode_len();
    let mut i: usize = 0;
    while i < n
        invariant
            0 <= i <= n,
            n == f@.len(),
            forall|j: int| 0 <= j < i ==> !csv_special(#[trigger] f@[j]),
        decreases n - i,
    {
        let c = f.get_char(i);
        if c == ',' || c == '"' || c == '\n' || c == '\r' {
            return false;
        }
        i += 1;
    }
    true
}

/// Appends one encoded field to the record being written.
fn push_field(out: &mut String, f: &str)
    ensures
        final (out)@ == old(out)@ + enc_field(f@),
{
    if is_plain(f) {
        out.append(f);
        proof {
            assert(out@ =~= old(out)@ + enc_field(f@));
        }
    } else {
        proof {
            reveal_strlit("\"");
            reveal_strlit("\"\"");
            assert("\""@ =~= seq!['"']);
            assert("\"\""@ =~= seq!['"', '"']);
        }
        out.append("\"");
        let ghost base = old(out)@ + seq!['"'];
        let n = f.unicode_len();
        let mut i: usize = 0;
        proof {
            assert(out@ =~= base + esc_quotes(f@.take(0)));
        }
        while i < n
            invariant
                0 <= i <= n,
                n == f@.len(),
                base == old(out)@ + seq!['"'],
                out@ == base + esc_quotes(f@.take(i as int)),
            decreases n - i,
        {
            let c = f.get_char(i);
            proof {
                assert(f@.take(i as int + 1).drop_last() =~= f@.take(i as int));
                assert(f@.take(i as int + 1).last() == f@[i as int]);
            }
            if c == '"' {
                out.append("\"\"");
                proof {
                    reveal_strlit("\"\"");
                    assert("\"\""@ =~= seq!['"', '"']);
                    assert(esc_quotes(f@.take(i as int + 1)) == esc_quotes(f@.take(i as int))
                        + seq!['"', '"']);
                    vstd::seq_lib::lemma_concat_associative(
                        base,
                        esc_quotes(f@.take(i as int)),
                        seq!['"', '"'],
                    );
                    assert(out@ =~= base + esc_quotes(f@.take(i as int + 1)));
                }
            } else {
                let piece = f.substring_char(i, i + 1);
                out.append(piece);
                proof {
                    assert(piece@ =~= seq![f@[i as int]]);
                    assert(esc_quotes(f@.take(i as int + 1)) == esc_quotes(f@.take(i as int))
                        + seq![f@[i as int]]);
                    vstd::seq_lib::lemma_concat_associative(
                        base,
                        esc_quotes(f@.take(i as int)),
                        seq![f@[i as int]],
                    );
                    assert(out@ =~= base + esc_quotes(f@.take(i as int + 1)));
                }
            }
            i += 1;
        }
        out.append("\"");
        proof {
            assert(f@.take(n as int) =~= f@);
            assert(out@ =~= old(out)@ + enc_field(f@));
        }
    }
}

/// Writes one whole record: the fields encoded and joined by commas.
pub fn encode_record(fields: &Vec<String>) -> (out: String)
    requires
        fields@.len() >= 1,
    ensures
        out@ == encode_fields(views_of(fields@)),
{
    let ghost enc_all = views_of(fields@).map_values(|f: Seq<char>| enc_field(f));
    let mut out = String::new();
    let mut i: usize = 0;
    proof {
        reveal_strlit(",");
        assert(","@ =~= seq![',']);
    }
    while i < fields.len()
        invariant
            0 <= i <= fields@.len(),
            fields@.len() >= 1,
            enc_all == views_of(fields@).map_values(|f: Seq<char>| enc_field(f)),
            out@ == join_fields(enc_all.take(i as int)),
        decreases fields@.len() - i,
    {
        if i > 0 {
            out.append(",");
        }
        push_field(&mut out, fields[i].as_str());
        proof {
            reveal_strlit(",");
            assert(","@ =~= seq![',']);
            let t1 = enc_all.take(i as int + 1);
            assert(t1.drop_last() =~= enc_all.take(i as int));
            assert(views_of(fields@)[i as int] == fields@[i as int]@);
            assert(t1.last() == enc_field(fields@[i as int]@));
            if i > 0 {
                assert(join_fields(t1) == join_fields(enc_all.take(i as int)) + seq![',']
                    + t1.last());
                vstd::seq_lib::lemma_concat_associative(
                    join_fields(enc_all.take(i as int)),
                    seq![','],
                    t1.last(),
                );
                assert(out@ =~= join_fields(t1));
            } else {
                assert(join_fields(t1) == t1[0]);
                assert(out@ =~= join_fields(t1));
            }
        }
        i += 1;
    }
    proof {
        assert(enc_all.take(fields@.len() as int) =~= enc_all);
    }
    out
}


/// Scans an unquoted stretch: returns the index of the first comma or
/// quote at or after `start`, or the end of the record.
fn scan_plain_exec(s: &str, start: usize) -> (j: usize)
    requires
        start <= s@.len(),
    ensures
        start <= j <= s@.len(),
        first_break(s@.subrange(start as int, s@.len() as int)) == j - start,
        j < s@.len() ==> (s@[j as int] == ',' || s@[j as int] == '"'),
{
    let n = s.unicode_len();
    let mut j: usize = start;
    while j < n
        invariant
            start <= j <= n,
            n == s@.len(),
            forall|k: int| start <= k < j ==> #[trigger] s@[k] != ',' && s@[k] != '"',
        decreases n - j,
    {
        let c = s.get_char(j);
        if c == ',' || c == '"' {
            proof {
                let t = s@.subrange(start as int, n as int);
                assert forall|k: int| 0 <= k < j - start implies #[trigger] t[k] != ',' && t[k]
                    != '"' by {
                    assert(t[k] == s@[start + k]);
                }
                assert(t[(j - start) as int] == s@[j as int]);
                lemma_first_break_at(t, (j - start) as int);
            }
            return j;
        }
        j += 1;
    }
    proof {
        let t = s@.subrange(start as int, n as int);
        assert forall|k: int| 0 <= k < j - start implies #[trigger] t[k] != ',' && t[k] != '"' by {
            assert(t[k] == s@[start + k]);
        }
        lemma_first_break_at(t, (j - start) as int);
    }
    j
}

/// Scans a quoted field's body, starting just after its opening quote:
/// returns the unescaped content and the index just past the closing
/// quote, or nothing when the field never closes.
fn scan_quoted_exec(s: &str, start: usize) -> (r: Option<(String, usize)>)
    requires
        start <= s@.len(),
    ensures
        r matches Some(p) ==> scan_quoted(s@.subrange(start as int, s@.len() as int)) == Some(
            (p.0@, p.1 as int - start as int),
        ) && start < p.1 <= s@.len(),
        r is None ==> scan_quoted(s@.subrange(start as int, s@.len() as int)) is None,
{
    let n = s.unicode_len();
    let ghost body = s@.subrange(start as int, n as int);
    let mut i: usize = start;
    let mut acc = String::new();
    proof {
        assert forall|p: (Seq<char>, int)| scan_quoted(body) == Some(p) implies scan_quoted(body)
            == Some((acc@ + p.0, 0 + p.1)) by {
            assert(acc@ + p.0 =~= p.0);
        }
    }
    loop
        invariant
            start <= i <= n,
            n == s@.len(),
            body == s@.subrange(start as int, n as int),
            (scan_quoted(s@.subrange(i as int, n as int)) matches Some(p) ==> scan_quoted(body)
                == Some((acc@ + p.0, i - start + p.1))),
            (scan_quoted(s@.subrange(i as int, n as int)) is None ==> scan_quoted(body) is None),
        decreases n - i,
    {
        if i == n {
            proof {
                assert(s@.subrange(i as int, n as int).len() == 0);
            }
            return None;
        }
        let ghost tin = s@.subrange(i as int, n as int);
        let ghost acc0 = acc@;
        let c = s.get_char(i);
        if c != '"' {
            let piece = s.substring_char(i, i + 1);
            acc.append(piece);
            i = i + 1;
            proof {
                let tnext = s@.subrange(i as int, n as int);
                assert(tin[0] != '"');
                assert(tin.subrange(1, tin.len() as int) =~= tnext);
                assert(piece@ =~= seq![tin[0]]);
                if scan_quoted(tnext) is Some {
                    let p = scan_quoted(tnext).unwrap();
                    assert(scan_quoted(tin) == Some((seq![tin[0]] + p.0, p.1 + 1)));
                    vstd::seq_lib::lemma_concat_associative(acc0, seq![tin[0]], p.0);
                    assert(acc0 + (seq![tin[0]] + p.0) =~= acc@ + p.0);
                } else {
                    assert(scan_quoted(tin) is None);
                }
            }
        } else {
            let doubled = if i + 1 < n {
                s.get_char(i + 1) == '"'
            } else {
                false
            };
            if doubled {
                proof {
                    reveal_strlit("\"");
                    assert("\""@ =~= seq!['"']);
                }
                acc.append("\"");
                i = i + 2;
                proof {
                    let tnext = s@.subrange(i as int, n as int);
                    assert(tin[0] == '"');
                    assert(tin.len() >= 2);
                    assert(tin[1] == '"');
                    assert(tin.subrange(2, tin.len() as int) =~= tnext);
                    if scan_quoted(tnext) is Some {
                        let p = scan_quoted(tnext).unwrap();
                        assert(scan_quoted(tin) == Some((seq!['"'] + p.0, p.1 + 2)));
                        vstd::seq_lib::lemma_concat_associative(acc0, seq!['"'], p.0);
                        assert(acc0 + (seq!['"'] + p.0) =~= acc@ + p.0);
                    } else {
                        assert(scan_quoted(tin) is None);
                    }
                }
            } else {
                proof {
                    assert(tin[0] == '"');
                    if i + 1 < n {
                        assert(tin[1] == s@[i as int + 1]);
                        assert(tin[1] != '"');
                    } else {
                        assert(tin.len() == 1);
                    }
                    assert(scan_quoted(tin) == Some((Seq::<char>::empty(), 1int)));
                    assert(acc@ + Seq::<char>::empty() =~= acc@);
                    assert(scan_quoted(body) == Some((acc@, i as int - start as int + 1)));
                }
                return Some((acc, i + 1));
            }
        }
    }
}

/// Splits a record into its fields, exactly as `scan_fields` reads it:
/// quoted fields are unescaped, and splitting inverts `encode_record`
/// whatever the fields hold.
pub fn split_record(s: &str) -> (r: Option<Vec<String>>)
    ensures
        r matches Some(fields) ==> scan_fields(s@) == Some(views_of(fields@)),
        r is None ==> scan_fields(s@) is None,
{
    let n = s.unicode_len();
    let mut done: Vec<String> = Vec::new();
    let mut pos: usize = 0;
    proof {
        assert(s@.subrange(0, n as int) =~= s@);
        assert forall|fs: Seq<Seq<char>>| scan_fields(s@) == Some(fs) implies scan_fields(s@)
            == Some(views_of(done@) + fs) by {
            assert(views_of(done@) =~= Seq::<Seq<char>>::empty());
            assert(views_of(done@) + fs =~= fs);
        }
    }
    loop
        invariant
            0 <= pos <= n,
            n == s@.len(),
            (scan_fields(s@.subrange(pos as int, n as int)) matches Some(fs) ==> scan_fields(s@)
                == Some(views_of(done@) + fs)),
            (scan_fields(s@.subrange(pos as int, n as int)) is None ==> scan_fields(s@) is None),
        decreases n - pos,
    {
        let ghost tcur = s@.subrange(pos as int, n as int);
        let quoted = if pos < n {
            s.get_char(pos) == '"'
        } else {
            false
        };
        if quoted {
            proof {
                assert(tcur[0] == '"');
                assert(tcur.subrange(1, tcur.len() as int) =~= s@.subrange(
                    pos as int + 1,
                    n as int,
                ));
            }
            match scan_quoted_exec(s, pos + 1) {
                None => {
                    proof {
                        assert(scan_fields(tcur) is None);
                    }
                    return None;
                },
                Some((field, end)) => {
                    if end == n {
                        let ghost prev = views_of(done@);
                        let ghost fv = field@;
                        done.push(field);
                        proof {
                            assert(1 + (end as int - pos as int - 1) == tcur.len());
                            assert(scan_fields(tcur) == Some(seq![fv]));
                            assert(views_of(done@) =~= prev.push(fv));
                            assert(prev + seq![fv] =~= views_of(done@));
                        }
                        return Some(done);
                    }
                    let sep = s.get_char(end);
                    if sep != ',' {
                        proof {
                            let nspec = 1 + (end as int - pos as int - 1);
                            assert(1 <= nspec < tcur.len());
                            assert(tcur[nspec] == s@[end as int]);
                            assert(scan_fields(tcur) is None);
                        }
                        return None;
                    }
                    let ghost prev = views_of(done@);
                    let ghost fv = field@;
                    done.push(field);
                    proof {
                        let nspec = 1 + (end as int - pos as int - 1);
                        assert(tcur[nspec] == s@[end as int]);
                        assert(tcur[nspec] == ',');
                        let rest = s@.subrange(end as int + 1, n as int);
                        assert(tcur.subrange(nspec + 1, tcur.len() as int) =~= rest);
                        assert(views_of(done@) =~= prev.push(fv));
                        if scan_fields(rest) is Some {
                            let fs2 = scan_fields(rest).unwrap();
                            assert(scan_fields(tcur) == Some(seq![fv] + fs2));
                            assert(views_of(done@) + fs2 =~= prev + (seq![fv] + fs2));
                        } else {
                            assert(scan_fields(tcur) is None);
                        }
                    }
                    pos = end + 1;
                },
            }
        } else {
            let j = scan_plain_exec(s, pos);
            proof {
                if tcur.len() >= 1 {
                    assert(tcur[0] == s@[pos as int]);
                    assert(tcur[0] != '"');
                }
            }
            if j == n {
                let piece = s.substring_char(pos, n);
                let ghost prev = views_of(done@);
                done.push(String::from_str(piece));
                proof {
                    assert((j - pos) as int == tcur.len());
                    assert(tcur.take(tcur.len() as int) =~= tcur);
                    assert(scan_fields(tcur) == Some(seq![tcur]));
                    assert(piece@ =~= tcur);
                    assert(views_of(done@) =~= prev.push(tcur));
                    assert(prev + seq![tcur] =~= views_of(done@));
                }
                return Some(done);
            }
            let cb = s.get_char(j);
            if cb == '"' {
                proof {
                    let jb = (j - pos) as int;
                    assert(0 <= jb < tcur.len());
                    assert(tcur[jb] == s@[j as int]);
                    assert(scan_fields(tcur) is None);
                }
                return None;
            }
            let piece = s.substring_char(pos, j);
            let ghost prev = views_of(done@);
            done.push(String::from_str(piece));
            proof {
                let jb = (j - pos) as int;
                assert(tcur[jb] == s@[j as int]);
                assert(tcur[jb] == ',');
                assert(piece@ =~= tcur.take(jb));
                let rest = s@.subrange(j as int + 1, n as int);
                assert(tcur.subrange(jb + 1, tcur.len() as int) =~= rest);
                assert(views_of(done@) =~= prev.push(piece@));
                if scan_fields(rest) is Some {
                    let fs2 = scan_fields(rest).unwrap();
                    assert(scan_fields(tcur) == Some(seq![piece@] + fs2));
                    assert(views_of(done@) + fs2 =~= prev + (seq![piece@] + fs2));
                } else {
                    assert(scan_fields(tcur) is None);
                }
            }
            pos = j + 1;
        }
    }
}

} // verus!
