//! Header handling shared by the CSV importers: header names are normalised
//! (lowercased, runs of non-alphanumeric characters collapsed to one `_`,
//! trailing `_` dropped) and columns are found by a list of aliases, tried in
//! order. Also the yes/no cell reading and the broker-specific column aliases
//! of the equity holdings export.

use vstd::prelude::*;
use vstd::string::*;
use crate::error::AppError;
use crate::text::{alphanumeric_spec, is_alphanumeric, push_char, str_eq, to_lowercase, trim, trim_spec, lowercase_spec};

verus! {

// ── Header names ───────────────────────────────────────────────────────

/// The characters of a lowercased header with every run of
/// non-alphanumeric characters replaced by one `_` (`after_sep`: the previous
/// character was such a run already).
pub open spec fn collapse_separators(s: Seq<char>, after_sep: bool) -> Seq<char>
    decreases s.len(),
{
    if s.len() == 0 {
        Seq::empty()
    } else if alphanumeric_spec(s[0]) {
        seq![s[0]] + collapse_separators(s.drop_first(), false)
    } else if !after_sep {
        seq!['_'] + collapse_separators(s.drop_first(), true)
    } else {
        collapse_separators(s.drop_first(), true)
    }
}

/// Number of trailing `_`.
pub open spec fn trailing_underscores(s: Seq<char>) -> int
    decreases s.len(),
{
    if s.len() > 0 && s.last() == '_' {
        1 + trailing_underscores(s.drop_last())
    } else {
        0
    }
}

/// A lowercased header in normal form.
pub open spec fn normalize_lowered_spec(l: Seq<char>) -> Seq<char> {
    let c = collapse_separators(l, false);
    c.take(c.len() - trailing_underscores(c))
}

/// A header in normal form.
pub open spec fn normalize_header_spec(h: Seq<char>) -> Seq<char> {
    normalize_lowered_spec(lowercase_spec(h))
}

proof fn lemma_trailing_underscores(s: Seq<char>, j: int)
    requires
        0 <= j <= s.len(),
        forall|k: int| j <= k < s.len() ==> #[trigger] s[k] == '_',
        j == 0 || s[j - 1] != '_',
    ensures
        trailing_underscores(s) == s.len() - j,
    decreases s.len(),
{
    if j < s.len() {
        assert forall|k: int| j <= k < s.drop_last().len() implies #[trigger] s.drop_last()[k] == '_' by {
            assert(s.drop_last()[k] == s[k]);
        }
        lemma_trailing_underscores(s.drop_last(), j);
    }
}

/// Puts an already lowercased header in normal form.
pub fn normalize_lowered(l: &str) -> (r: String)
    ensures
        r@ == normalize_lowered_spec(l@),
{
    let n = l.unicode_len();
    let mut out = String::new();
    let mut after_sep = false;
    let mut i: usize = 0;
    assert(l@.skip(0) =~= l@);
    assert(out@ + collapse_separators(l@, false) =~= collapse_separators(l@, false));
    while i < n
        invariant
            n == l@.len(),
            i <= n,
            collapse_separators(l@, false) == out@ + collapse_separators(l@.skip(i as int), after_sep),
        decreases n - i,
    {
        let c = l.get_char(i);
        let ghost rest = l@.skip(i as int);
        assert(rest[0] == c);
        assert(rest.drop_first() =~= l@.skip(i + 1));
        if is_alphanumeric(c) {
            push_char(&mut out, c);
            after_sep = false;
        } else if !after_sep {
            push_char(&mut out, '_');
            after_sep = true;
        }
        i = i + 1;
    }
    assert(l@.skip(n as int) =~= Seq::<char>::empty());
    assert(out@ + Seq::<char>::empty() =~= out@);
    let m = out.as_str().unicode_len();
    let mut j: usize = m;
    while j > 0 && out.as_str().get_char(j - 1) == '_'
        invariant
            m == out@.len(),
            j <= m,
            forall|k: int| j <= k < m ==> #[trigger] out@[k] == '_',
        decreases j,
    {
        j = j - 1;
    }
    proof {
        lemma_trailing_underscores(out@, j as int);
        assert(out@.take(j as int) =~= out@.subrange(0, j as int));
    }
    String::from_str(out.as_str().substring_char(0, j))
}

/// Puts a header in normal form: lowercased, every run of
/// non-alphanumeric characters replaced by one `_`, trailing `_` removed
/// (`"Avg. Cost Price"` becomes `"avg_cost_price"`).
pub fn normalize_header(h: &str) -> (r: String)
    ensures
        r@ == normalize_header_spec(h@),
{
    let l = to_lowercase(h);
    normalize_lowered(l.as_str())
}

// ── Finding columns ────────────────────────────────────────────────────

/// Index of the first header equal to `a`, if any.
pub open spec fn header_position(hs: Seq<Seq<char>>, a: Seq<char>) -> Option<int>
    decreases hs.len(),
{
    if hs.len() == 0 {
        None
    } else if hs[0] == a {
        Some(0)
    } else {
        match header_position(hs.drop_first(), a) {
            Some(p) => Some(p + 1),
            None => None,
        }
    }
}

/// The column of the first alias (in the order given) that some header
/// equals.
pub open spec fn find_col_spec(hs: Seq<Seq<char>>, aliases: Seq<Seq<char>>) -> Option<int>
    decreases aliases.len(),
{
    if aliases.len() == 0 {
        None
    } else {
        match header_position(hs, aliases[0]) {
            Some(p) => Some(p),
            None => find_col_spec(hs, aliases.drop_first()),
        }
    }
}

proof fn lemma_header_position(hs: Seq<Seq<char>>, a: Seq<char>)
    ensures
        header_position(hs, a) matches Some(p) ==> 0 <= p < hs.len() && hs[p] == a,
        hs.contains(a) ==> header_position(hs, a) is Some,
    decreases hs.len(),
{
    if hs.len() > 0 {
        lemma_header_position(hs.drop_first(), a);
        if hs.contains(a) && hs[0] != a {
            let i = choose|i: int| 0 <= i < hs.len() && hs[i] == a;
            assert(hs.drop_first()[i - 1] == a);
        }
    }
}

proof fn lemma_find_col(hs: Seq<Seq<char>>, als: Seq<Seq<char>>, a: Seq<char>)
    ensures
        find_col_spec(hs, als) matches Some(p) ==> 0 <= p < hs.len() && als.contains(hs[p]),
        als.contains(a) && hs.contains(a) ==> find_col_spec(hs, als) is Some,
    decreases als.len(),
{
    if als.len() > 0 {
        lemma_header_position(hs, als[0]);
        lemma_header_position(hs, a);
        lemma_find_col(hs, als.drop_first(), a);
        if let Some(p) = find_col_spec(hs, als) {
            if header_position(hs, als[0]) is None {
                let x = choose|x: int| 0 <= x < als.drop_first().len() && als.drop_first()[x] == hs[p];
                assert(als[x + 1] == hs[p]);
            }
        }
        if als.contains(a) && hs.contains(a) && als[0] != a {
            let x = choose|x: int| 0 <= x < als.len() && als[x] == a;
            assert(als.drop_first()[x - 1] == a);
        }
    }
}

/// Whether a column with the aliases `als` is found in every header row that
/// has one of `names`, and only ever at a header that is one of `names`.
pub open spec fn recognizes_exactly(als: Seq<Seq<char>>, names: Seq<Seq<char>>) -> bool {
    &&& forall|hs: Seq<Seq<char>>, a: Seq<char>|
        #![trigger find_col_spec(hs, als), hs.contains(a)]
        names.contains(a) && hs.contains(a) ==> find_col_spec(hs, als) is Some
    &&& forall|hs: Seq<Seq<char>>|
        #![trigger find_col_spec(hs, als)]
        find_col_spec(hs, als) matches Some(p) ==> 0 <= p < hs.len() && names.contains(hs[p])
}

/// A column is found exactly at the headers that are among its aliases.
pub proof fn lemma_recognizes_own_aliases(als: Seq<Seq<char>>)
    ensures
        recognizes_exactly(als, als),
{
    assert forall|hs: Seq<Seq<char>>, a: Seq<char>|
        #![trigger find_col_spec(hs, als), hs.contains(a)]
        als.contains(a) && hs.contains(a) implies find_col_spec(hs, als) is Some by {
        lemma_find_col(hs, als, a);
    }
    assert forall|hs: Seq<Seq<char>>|
        #![trigger find_col_spec(hs, als)]
        (find_col_spec(hs, als) matches Some(p) ==> 0 <= p < hs.len() && als.contains(hs[p])) by {
        lemma_find_col(hs, als, Seq::empty());
    }
}

/// Plain-value view of a list of header names.
pub open spec fn names_view(hs: Seq<String>) -> Seq<Seq<char>> {
    hs.map_values(|h: String| h@)
}

/// Plain-value view of a list of aliases.
pub open spec fn aliases_view(als: Seq<&str>) -> Seq<Seq<char>> {
    als.map_values(|a: &str| a@)
}

fn header_position_exec(headers: &[String], a: &str) -> (r: Option<usize>)
    ensures
        match r {
            Some(p) => header_position(names_view(headers@), a@) == Some(p as int),
            None => header_position(names_view(headers@), a@) is None,
        },
{
    let ghost hs = names_view(headers@);
    let n = headers.len();
    let mut i: usize = 0;
    assert(hs.skip(0) =~= hs);
    while i < n
        invariant
            n == headers@.len(),
            hs == names_view(headers@),
            i <= n,
            header_position(hs, a@) == match header_position(hs.skip(i as int), a@) {
                Some(p) => Some(p + i),
                None => None::<int>,
            },
        decreases n - i,
    {
        let ghost rest = hs.skip(i as int);
        assert(rest[0] == headers@[i as int]@);
        assert(rest.drop_first() =~= hs.skip(i + 1));
        if str_eq(headers[i].as_str(), a) {
            return Some(i);
        }
        i = i + 1;
    }
    assert(hs.skip(n as int) =~= Seq::<Seq<char>>::empty());
    None
}

/// The column of the first alias (tried in order) that names a header.
pub fn find_col(headers: &[String], aliases: &[&str]) -> (r: Option<usize>)
    ensures
        match r {
            Some(p) => find_col_spec(names_view(headers@), aliases_view(aliases@)) == Some(p as int),
            None => find_col_spec(names_view(headers@), aliases_view(aliases@)) is None,
        },
{
    let ghost hs = names_view(headers@);
    let ghost als = aliases_view(aliases@);
    let n = aliases.len();
    let mut i: usize = 0;
    assert(als.skip(0) =~= als);
    while i < n
        invariant
            n == aliases@.len(),
            hs == names_view(headers@),
            als == aliases_view(aliases@),
            i <= n,
            find_col_spec(hs, als) == find_col_spec(hs, als.skip(i as int)),
        decreases n - i,
    {
        let ghost rest = als.skip(i as int);
        assert(rest[0] == aliases@[i as int]@);
        assert(rest.drop_first() =~= als.skip(i + 1));
        match header_position_exec(headers, aliases[i]) {
            Some(p) => {
                return Some(p);
            },
            None => {},
        }
        i = i + 1;
    }
    assert(als.skip(n as int) =~= Seq::<Seq<char>>::empty());
    None
}

/// The column of a column the import cannot do without: the first alias
/// that names a header, or a parse error with `missing` as its message.
pub fn require_col(headers: &[String], aliases: &[&str], missing: &str) -> (r: Result<usize, AppError>)
    ensures
        match find_col_spec(names_view(headers@), aliases_view(aliases@)) {
            Some(p) => r matches Ok(x) && x as int == p,
            None => r matches Err(AppError::Parse(m)) && m@ == missing@,
        },
{
    match find_col(headers, aliases) {
        Some(p) => Ok(p),
        None => Err(AppError::Parse(String::from_str(missing))),
    }
}

// ── Yes / no cells ─────────────────────────────────────────────────────

/// Whether a trimmed, lowercased cell reads as yes.
pub open spec fn yes_word(t: Seq<char>) -> bool {
    t == "true"@ || t == "yes"@ || t == "1"@ || t == "direct"@ || t == "growth"@
}

/// Whether a cell reads as yes: after lowercasing and trimming it is one of
/// `true`, `yes`, `1`, `direct`, `growth`.
pub open spec fn parse_bool_spec(s: Seq<char>) -> bool {
    yes_word(trim_spec(lowercase_spec(s)))
}

/// Whether an already lowercased cell reads as yes.
pub fn parse_bool_lowered(l: &str) -> (r: bool)
    ensures
        r == yes_word(trim_spec(l@)),
{
    let t = trim(l);
    str_eq(t, "true") || str_eq(t, "yes") || str_eq(t, "1") || str_eq(t, "direct") || str_eq(t, "growth")
}

/// Whether a cell reads as yes (see `parse_bool_spec`).
pub fn parse_bool(s: &str) -> (r: bool)
    ensures
        r == parse_bool_spec(s@),
{
    let l = to_lowercase(s);
    parse_bool_lowered(l.as_str())
}

/// A yes/no cell as the integer flag the database stores: 1 or 0.
pub fn parse_bool_int(s: &str) -> (r: i64)
    ensures
        r == (if parse_bool_spec(s@) { 1i64 } else { 0i64 }),
{
    if parse_bool(s) {
        1
    } else {
        0
    }
}

// ── The equity holdings export ─────────────────────────────────────────

/// The header aliases, per column, of one broker's equity holdings export.
pub struct EquityAliases {
    pub symbol: Vec<&'static str>,
    pub quantity: Vec<&'static str>,
    pub avg_price: Vec<&'static str>,
    pub ltp: Vec<&'static str>,
    pub exchange: Vec<&'static str>,
    pub isin: Vec<&'static str>,
}

/// Plain-value view of `EquityAliases`.
pub struct EquityAliasesView {
    pub symbol: Seq<Seq<char>>,
    pub quantity: Seq<Seq<char>>,
    pub avg_price: Seq<Seq<char>>,
    pub ltp: Seq<Seq<char>>,
    pub exchange: Seq<Seq<char>>,
    pub isin: Seq<Seq<char>>,
}

impl View for EquityAliases {
    type V = EquityAliasesView;

    open spec fn view(&self) -> EquityAliasesView {
        EquityAliasesView {
            symbol: aliases_view(self.symbol@),
            quantity: aliases_view(self.quantity@),
            avg_price: aliases_view(self.avg_price@),
            ltp: aliases_view(self.ltp@),
            exchange: aliases_view(self.exchange@),
            isin: aliases_view(self.isin@),
        }
    }
}

/// The aliases per broker; an unknown broker gets a generic list.
pub open spec fn equity_aliases_spec(broker: Seq<char>) -> EquityAliasesView {
    if broker == "zerodha"@ {
        EquityAliasesView {
            symbol: seq!["instrument"@, "symbol"@, "scrip"@, "stock_symbol"@],
            quantity: seq!["qty"@, "quantity"@, "net_qty"@],
            avg_price: seq!["avg_cost"@, "avg_price"@, "average_price"@, "buy_price"@, "average_cost"@],
            ltp: seq!["ltp"@, "last_price"@, "cmp"@, "close_price"@],
            exchange: seq!["exchange"@, "exch"@, "segment"@],
            isin: seq!["isin"@],
        }
    } else if broker == "upstox"@ {
        EquityAliasesView {
            symbol: seq!["instrument_name"@, "trading_symbol"@, "symbol"@, "scrip_name"@, "stock"@],
            quantity: seq!["quantity"@, "net_qty"@, "qty"@],
            avg_price: seq!["avg_cost_price"@, "avg__cost_price"@, "buy_avg_price"@, "average_price"@, "avg_price"@],
            ltp: seq!["ltp"@, "current_price"@, "last_price"@, "close_price"@],
            exchange: seq!["exchange"@, "exch"@],
            isin: seq!["isin"@],
        }
    } else if broker == "angel_one"@ {
        EquityAliasesView {
            symbol: seq!["symbol"@, "instrument"@, "stock"@],
            quantity: seq!["net_qty"@, "qty"@, "quantity"@],
            avg_price: seq!["avg_buy_price"@, "average_price"@, "avg_price"@],
            ltp: seq!["ltp"@, "close_price"@],
            exchange: seq!["exchange"@],
            isin: seq!["isin"@],
        }
    } else if broker == "groww"@ {
        EquityAliasesView {
            symbol: seq!["symbol"@, "ticker"@, "scrip"@],
            quantity: seq!["qty"@, "quantity"@],
            avg_price: seq!["avg_price"@, "avg_cost"@, "average_price"@],
            ltp: seq!["ltp"@, "current_price"@],
            exchange: seq!["exchange"@],
            isin: seq!["isin"@],
        }
    } else {
        EquityAliasesView {
            symbol: seq!["symbol"@, "instrument"@, "scrip"@],
            quantity: seq!["qty"@, "quantity"@, "net_qty"@],
            avg_price: seq!["avg_price"@, "avg_cost"@, "average_price"@, "avg_buy_price"@],
            ltp: seq!["ltp"@, "last_price"@, "current_price"@],
            exchange: seq!["exchange"@, "exch"@],
            isin: seq!["isin"@],
        }
    }
}

/// Each broker's export is read by the header names it uses. For every
/// header row: the symbol, quantity, average price, last price, exchange
/// and ISIN columns are found whenever a header has one of the broker's
/// names for them, and only at such a header. The names (after
/// normalisation) are, for Zerodha, Upstox, Angel One, Groww and any other
/// broker, those listed below.
pub proof fn law_broker_export_headers(broker: Seq<char>)
    ensures
        ({
            let al = equity_aliases_spec(broker);
            broker == "zerodha"@ ==> {
                &&& recognizes_exactly(al.symbol, seq!["instrument"@, "symbol"@, "scrip"@, "stock_symbol"@])
                &&& recognizes_exactly(al.quantity, seq!["qty"@, "quantity"@, "net_qty"@])
                &&& recognizes_exactly(
                    al.avg_price,
                    seq!["avg_cost"@, "avg_price"@, "average_price"@, "buy_price"@, "average_cost"@],
                )
                &&& recognizes_exactly(al.ltp, seq!["ltp"@, "last_price"@, "cmp"@, "close_price"@])
                &&& recognizes_exactly(al.exchange, seq!["exchange"@, "exch"@, "segment"@])
                &&& recognizes_exactly(al.isin, seq!["isin"@])
            }
        }),
        ({
            let al = equity_aliases_spec(broker);
            broker == "upstox"@ ==> {
                &&& recognizes_exactly(
                    al.symbol,
                    seq!["instrument_name"@, "trading_symbol"@, "symbol"@, "scrip_name"@, "stock"@],
                )
                &&& recognizes_exactly(al.quantity, seq!["quantity"@, "net_qty"@, "qty"@])
                &&& recognizes_exactly(
                    al.avg_price,
                    seq!["avg_cost_price"@, "avg__cost_price"@, "buy_avg_price"@, "average_price"@, "avg_price"@],
                )
                &&& recognizes_exactly(al.ltp, seq!["ltp"@, "current_price"@, "last_price"@, "close_price"@])
                &&& recognizes_exactly(al.exchange, seq!["exchange"@, "exch"@])
                &&& recognizes_exactly(al.isin, seq!["isin"@])
            }
        }),
        ({
            let al = equity_aliases_spec(broker);
            broker == "angel_one"@ ==> {
                &&& recognizes_exactly(al.symbol, seq!["symbol"@, "instrument"@, "stock"@])
                &&& recognizes_exactly(al.quantity, seq!["net_qty"@, "qty"@, "quantity"@])
                &&& recognizes_exactly(al.avg_price, seq!["avg_buy_price"@, "average_price"@, "avg_price"@])
                &&& recognizes_exactly(al.ltp, seq!["ltp"@, "close_price"@])
                &&& recognizes_exactly(al.exchange, seq!["exchange"@])
                &&& recognizes_exactly(al.isin, seq!["isin"@])
            }
        }),
        ({
            let al = equity_aliases_spec(broker);
            broker == "groww"@ ==> {
                &&& recognizes_exactly(al.symbol, seq!["symbol"@, "ticker"@, "scrip"@])
                &&& recognizes_exactly(al.quantity, seq!["qty"@, "quantity"@])
                &&& recognizes_exactly(al.avg_price, seq!["avg_price"@, "avg_cost"@, "average_price"@])
                &&& recognizes_exactly(al.ltp, seq!["ltp"@, "current_price"@])
                &&& recognizes_exactly(al.exchange, seq!["exchange"@])
                &&& recognizes_exactly(al.isin, seq!["isin"@])
            }
        }),
        ({
            let al = equity_aliases_spec(broker);
            broker != "zerodha"@ && broker != "upstox"@ && broker != "angel_one"@ && broker != "groww"@ ==> {
                &&& recognizes_exactly(al.symbol, seq!["symbol"@, "instrument"@, "scrip"@])
                &&& recognizes_exactly(al.quantity, seq!["qty"@, "quantity"@, "net_qty"@])
                &&& recognizes_exactly(al.avg_price, seq!["avg_price"@, "avg_cost"@, "average_price"@, "avg_buy_price"@])
                &&& recognizes_exactly(al.ltp, seq!["ltp"@, "last_price"@, "current_price"@])
                &&& recognizes_exactly(al.exchange, seq!["exchange"@, "exch"@])
                &&& recognizes_exactly(al.isin, seq!["isin"@])
            }
        }),
{
    reveal_strlit("zerodha");
    reveal_strlit("upstox");
    reveal_strlit("angel_one");
    reveal_strlit("groww");
    assert("zerodha"@.len() == 7 && "upstox"@.len() == 6 && "angel_one"@.len() == 9 && "groww"@.len() == 5);
    let al = equity_aliases_spec(broker);
    lemma_recognizes_own_aliases(al.symbol);
    lemma_recognizes_own_aliases(al.quantity);
    lemma_recognizes_own_aliases(al.avg_price);
    lemma_recognizes_own_aliases(al.ltp);
    lemma_recognizes_own_aliases(al.exchange);
    lemma_recognizes_own_aliases(al.isin);
}

/// The header aliases of a broker's equity holdings export.
pub fn equity_aliases(broker: &str) -> (a: EquityAliases)
    ensures
        a@ == equity_aliases_spec(broker@),
{
    let a = if str_eq(broker, "zerodha") {
        EquityAliases {
            symbol: vec!["instrument", "symbol", "scrip", "stock_symbol"],
            quantity: vec!["qty", "quantity", "net_qty"],
            avg_price: vec!["avg_cost", "avg_price", "average_price", "buy_price", "average_cost"],
            ltp: vec!["ltp", "last_price", "cmp", "close_price"],
            exchange: vec!["exchange", "exch", "segment"],
            isin: vec!["isin"],
        }
    } else if str_eq(broker, "upstox") {
        EquityAliases {
            symbol: vec!["instrument_name", "trading_symbol", "symbol", "scrip_name", "stock"],
            quantity: vec!["quantity", "net_qty", "qty"],
            avg_price: vec!["avg_cost_price", "avg__cost_price", "buy_avg_price", "average_price", "avg_price"],
            ltp: vec!["ltp", "current_price", "last_price", "close_price"],
            exchange: vec!["exchange", "exch"],
            isin: vec!["isin"],
        }
    } else if str_eq(broker, "angel_one") {
        EquityAliases {
            symbol: vec!["symbol", "instrument", "stock"],
            quantity: vec!["net_qty", "qty", "quantity"],
            avg_price: vec!["avg_buy_price", "average_price", "avg_price"],
            ltp: vec!["ltp", "close_price"],
            exchange: vec!["exchange"],
            isin: vec!["isin"],
        }
    } else if str_eq(broker, "groww") {
        EquityAliases {
            symbol: vec!["symbol", "ticker", "scrip"],
            quantity: vec!["qty", "quantity"],
            avg_price: vec!["avg_price", "avg_cost", "average_price"],
            ltp: vec!["ltp", "current_price"],
            exchange: vec!["exchange"],
            isin: vec!["isin"],
        }
    } else {
        EquityAliases {
            symbol: vec!["symbol", "instrument", "scrip"],
            quantity: vec!["qty", "quantity", "net_qty"],
            avg_price: vec!["avg_price", "avg_cost", "average_price", "avg_buy_price"],
            ltp: vec!["ltp", "last_price", "current_price"],
            exchange: vec!["exchange", "exch"],
            isin: vec!["isin"],
        }
    };
    assert(a@.symbol =~= equity_aliases_spec(broker@).symbol);
    assert(a@.quantity =~= equity_aliases_spec(broker@).quantity);
    assert(a@.avg_price =~= equity_aliases_spec(broker@).avg_price);
    assert(a@.ltp =~= equity_aliases_spec(broker@).ltp);
    assert(a@.exchange =~= equity_aliases_spec(broker@).exchange);
    assert(a@.isin =~= equity_aliases_spec(broker@).isin);
    a
}

/// Where each field of an equity holding is in the export: symbol, quantity
/// and average price are required; last price, exchange and ISIN optional.
pub struct EquityColumns {
    pub symbol: usize,
    pub quantity: usize,
    pub avg_price: usize,
    pub ltp: Option<usize>,
    pub exchange: Option<usize>,
    pub isin: Option<usize>,
}

/// An optional column's index as a plain value.
pub open spec fn opt_index(o: Option<usize>) -> Option<int> {
    match o {
        Some(i) => Some(i as int),
        None => None,
    }
}

/// Finds the columns of a broker's equity holdings export among the
/// normalised `headers`. A missing required column is a parse error naming
/// it, checked in the order symbol, quantity, average price.
pub fn equity_columns(broker: &str, headers: &[String]) -> (r: Result<EquityColumns, AppError>)
    ensures
        ({
            let al = equity_aliases_spec(broker@);
            let hs = names_view(headers@);
            if find_col_spec(hs, al.symbol) is None {
                r matches Err(AppError::Parse(m)) && m@ == "Symbol column not found in CSV"@
            } else if find_col_spec(hs, al.quantity) is None {
                r matches Err(AppError::Parse(m)) && m@ == "Quantity column not found in CSV"@
            } else if find_col_spec(hs, al.avg_price) is None {
                r matches Err(AppError::Parse(m)) && m@ == "Average price column not found in CSV"@
            } else {
                r matches Ok(c) && Some(c.symbol as int) == find_col_spec(hs, al.symbol) && Some(c.quantity as int)
                    == find_col_spec(hs, al.quantity) && Some(c.avg_price as int) == find_col_spec(hs, al.avg_price)
                    && opt_index(c.ltp) == find_col_spec(hs, al.ltp) && opt_index(c.exchange) == find_col_spec(
                    hs,
                    al.exchange,
                ) && opt_index(c.isin) == find_col_spec(hs, al.isin)
            }
        }),
{
    let al = equity_aliases(broker);
    let symbol = match require_col(headers, al.symbol.as_slice(), "Symbol column not found in CSV") {
        Ok(p) => p,
        Err(e) => {
            return Err(e);
        },
    };
    let quantity = match require_col(headers, al.quantity.as_slice(), "Quantity column not found in CSV") {
        Ok(p) => p,
        Err(e) => {
            return Err(e);
        },
    };
    let avg_price = match require_col(
        headers,
        al.avg_price.as_slice(),
        "Average price column not found in CSV",
    ) {
        Ok(p) => p,
        Err(e) => {
            return Err(e);
        },
    };
    let ltp = find_col(headers, al.ltp.as_slice());
    let exchange = find_col(headers, al.exchange.as_slice());
    let isin = find_col(headers, al.isin.as_slice());
    Ok(EquityColumns { symbol, quantity, avg_price, ltp, exchange, isin })
}

} // verus!
