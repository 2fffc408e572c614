//! The encrypted database file: the statements that key, configure and
//! rekey a SQLCipher connection (the passphrase is quoted as a SQL string
//! literal, every `'` doubled), whether a file's header is that of a plain,
//! unencrypted SQLite database, and a device's random id.

use vstd::prelude::*;
use vstd::string::*;
use crate::codec::{hex_encode, hex_encode_spec};
use crate::crypto::random_bytes;
use crate::text::push_char;

verus! {

// ── Quoting ────────────────────────────────────────────────────────────

/// A character as it stands inside a single-quoted SQL literal.
pub open spec fn quote_piece(c: char) -> Seq<char> {
    if c == '\'' {
        seq!['\'', '\'']
    } else {
        seq![c]
    }
}

/// A text as the inside of a single-quoted SQL literal: each `'` doubled.
pub open spec fn sql_quote_spec(s: Seq<char>) -> Seq<char>
    decreases s.len(),
{
    if s.len() == 0 {
        Seq::empty()
    } else {
        sql_quote_spec(s.drop_last()) + quote_piece(s.last())
    }
}

/// The text inside a single-quoted SQL literal: each `''` read as one `'`.
pub open spec fn sql_unquote_spec(t: Seq<char>) -> Seq<char>
    decreases t.len(),
{
    if t.len() == 0 {
        Seq::empty()
    } else if t.len() >= 2 && t[0] == '\'' && t[1] == '\'' {
        seq!['\''] + sql_unquote_spec(t.skip(2))
    } else {
        seq![t[0]] + sql_unquote_spec(t.drop_first())
    }
}

proof fn lemma_quote_concat(a: Seq<char>, b: Seq<char>)
    ensures
        sql_quote_spec(a + b) == sql_quote_spec(a) + sql_quote_spec(b),
    decreases b.len(),
{
    if b.len() == 0 {
        assert(a + b =~= a);
        assert(sql_quote_spec(a) + sql_quote_spec(b) =~= sql_quote_spec(a));
    } else {
        assert((a + b).drop_last() =~= a + b.drop_last());
        assert((a + b).last() == b.last());
        lemma_quote_concat(a, b.drop_last());
        assert(sql_quote_spec(a + b) =~= sql_quote_spec(a) + sql_quote_spec(b.drop_last()) + quote_piece(b.last()));
    }
}

/// Reading back a quoted passphrase gives the passphrase: the quoting
/// loses nothing and every `'` it writes is one of a doubled pair, so the
/// literal cannot end early.
pub proof fn law_quote_roundtrip(s: Seq<char>)
    ensures
        sql_unquote_spec(sql_quote_spec(s)) == s,
    decreases s.len(),
{
    if s.len() > 0 {
        let c = s[0];
        let rest = s.drop_first();
        assert(s =~= seq![c] + rest);
        lemma_quote_concat(seq![c], rest);
        assert(seq![c].drop_last() =~= Seq::<char>::empty());
        assert(seq![c].last() == c);
        assert(sql_quote_spec(Seq::<char>::empty()) == Seq::<char>::empty());
        assert(sql_quote_spec(seq![c]) =~= quote_piece(c));
        law_quote_roundtrip(rest);
        let q = sql_quote_spec(rest);
        let t = quote_piece(c) + q;
        if c == '\'' {
            assert(t.skip(2) =~= q);
            assert(sql_unquote_spec(t) =~= seq!['\''] + sql_unquote_spec(q));
        } else {
            assert(t.drop_first() =~= q);
            assert(sql_unquote_spec(t) =~= seq![c] + sql_unquote_spec(q));
        }
        assert(sql_unquote_spec(sql_quote_spec(s)) =~= s);
    }
}

fn push_quoted(out: &mut String, s: &str)
    ensures
        final(out)@ == old(out)@ + sql_quote_spec(s@),
{
    let ghost start = out@;
    let n = s.unicode_len();
    let mut i: usize = 0;
    assert(s@.take(0) =~= Seq::<char>::empty());
    assert(start + sql_quote_spec(Seq::<char>::empty()) =~= start);
    while i < n
        invariant
            n == s@.len(),
            i <= n,
            out@ == start + sql_quote_spec(s@.take(i as int)),
        decreases n - i,
    {
        let c = s.get_char(i);
        assert(s@.take(i + 1).drop_last() =~= s@.take(i as int));
        assert(s@.take(i + 1).last() == c);
        push_char(out, c);
        if c == '\'' {
            push_char(out, '\'');
        }
        assert(out@ =~= start + sql_quote_spec(s@.take(i + 1)));
        i = i + 1;
    }
    assert(s@.take(n as int) =~= s@);
}

/// A passphrase as the inside of a SQL string literal (see
/// `sql_quote_spec`).
pub fn sql_quote(s: &str) -> (r: String)
    ensures
        r@ == sql_quote_spec(s@),
{
    let mut out = String::new();
    push_quoted(&mut out, s);
    out
}

// ── Statements ─────────────────────────────────────────────────────────

/// The statement that gives a connection its passphrase.
pub open spec fn key_sql_spec(password: Seq<char>) -> Seq<char> {
    "PRAGMA key = '"@ + sql_quote_spec(password) + "';"@
}

/// The statement that gives a connection its passphrase (see
/// `key_sql_spec`).
pub fn key_sql(password: &str) -> (r: String)
    ensures
        r@ == key_sql_spec(password@),
{
    let mut out = String::from_str("PRAGMA key = '");
    push_quoted(&mut out, password);
    out.append("';");
    out
}

/// The statements each pooled connection runs when opened: its passphrase,
/// then write-ahead logging, foreign keys, a five second busy timeout,
/// normal synchronisation and temporary tables in memory.
pub open spec fn pool_init_sql_spec(password: Seq<char>) -> Seq<char> {
    key_sql_spec(password) + "\nPRAGMA journal_mode=WAL;\nPRAGMA foreign_keys=ON;\nPRAGMA busy_timeout=5000;\nPRAGMA synchronous=NORMAL;\nPRAGMA temp_store=MEMORY;"@
}

/// The statements each pooled connection runs when opened (see
/// `pool_init_sql_spec`).
pub fn pool_init_sql(password: &str) -> (r: String)
    ensures
        r@ == pool_init_sql_spec(password@),
{
    let mut out = key_sql(password);
    out.append(
        "\nPRAGMA journal_mode=WAL;\nPRAGMA foreign_keys=ON;\nPRAGMA busy_timeout=5000;\nPRAGMA synchronous=NORMAL;\nPRAGMA temp_store=MEMORY;",
    );
    out
}

/// The statement that re-encrypts the open database under a new
/// passphrase.
pub open spec fn rekey_sql_spec(password: Seq<char>) -> Seq<char> {
    "PRAGMA rekey = '"@ + sql_quote_spec(password) + "';"@
}

/// The statement that re-encrypts the open database (see
/// `rekey_sql_spec`).
pub fn rekey_sql(password: &str) -> (r: String)
    ensures
        r@ == rekey_sql_spec(password@),
{
    let mut out = String::from_str("PRAGMA rekey = '");
    push_quoted(&mut out, password);
    out.append("';");
    out
}

// ── The file header ────────────────────────────────────────────────────

/// The first 16 bytes of a plain SQLite database file:
/// `SQLite format 3` and a zero byte.
pub open spec fn sqlite_magic() -> Seq<u8> {
    seq![0x53u8, 0x51, 0x4c, 0x69, 0x74, 0x65, 0x20, 0x66, 0x6f, 0x72, 0x6d, 0x61, 0x74, 0x20, 0x33, 0x00]
}

/// Whether the first 16 bytes of a file are those of a plain, unencrypted
/// SQLite database (an encrypted one starts with random-looking bytes).
pub fn is_plain_sqlite_header(header: &[u8]) -> (r: bool)
    ensures
        r == (header@ == sqlite_magic()),
{
    let magic: [u8; 16] = [0x53, 0x51, 0x4c, 0x69, 0x74, 0x65, 0x20, 0x66, 0x6f, 0x72, 0x6d, 0x61, 0x74, 0x20, 0x33, 0x00];
    assert(magic@ =~= sqlite_magic());
    if header.len() != 16 {
        return false;
    }
    let mut i: usize = 0;
    while i < 16
        invariant
            header@.len() == 16,
            magic@ == sqlite_magic(),
            i <= 16,
            forall|k: int| 0 <= k < i ==> header@[k] == sqlite_magic()[k],
        decreases 16 - i,
    {
        if header[i] != magic[i] {
            return false;
        }
        i = i + 1;
    }
    assert(header@ =~= sqlite_magic());
    true
}

// ── Device id ──────────────────────────────────────────────────────────

/// A fresh device id: 16 random bytes as 32 lowercase hex digits.
pub fn new_device_id() -> (s: String)
    ensures
        exists|b: Seq<u8>| b.len() == 16 && s@ == hex_encode_spec(b),
{
    let b = random_bytes(16);
    let s = hex_encode(b.as_slice());
    assert(b@.len() == 16 && s@ == hex_encode_spec(b@));
    s
}

} // verus!
