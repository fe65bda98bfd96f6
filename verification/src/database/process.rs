use vstd::prelude::*;

use crate::database::client::views_of;
use crate::database::person::PersonIdentifier;
use crate::database::promise::{Promise, PromiseProcessCategory};
use crate::text::{
    has_no_char, lemma_join_split, lemma_split_join, spec_join, spec_split, split_str, join_commas,
    tokens_free_of,
};

verus! {

/// One price-range position of the limit strategy. Every amount is carried
/// as decimal text, exactly as it is persisted.
#[derive(Debug)]
pub struct LimitPosition {
    pub investment: String,
    pub buying_low: String,
    pub buying_high: String,
    pub selling_low: String,
    pub selling_high: String,
    /// The remaining position size; `None` when nothing is held.
    pub position: Option<String>,
}

/// The mathematical value of a `LimitPosition`.
#[verifier::ext_equal]
pub struct LimitPositionView {
    pub investment: Seq<char>,
    pub buying_low: Seq<char>,
    pub buying_high: Seq<char>,
    pub selling_low: Seq<char>,
    pub selling_high: Seq<char>,
    pub position: Option<Seq<char>>,
}

impl View for LimitPosition {
    type V = LimitPositionView;

    open spec fn view(&self) -> LimitPositionView {
        LimitPositionView {
            investment: self.investment@,
            buying_low: self.buying_low@,
            buying_high: self.buying_high@,
            selling_low: self.selling_low@,
            selling_high: self.selling_high@,
            position: match self.position {
                Some(q) => Some(q@),
                None => None,
            },
        }
    }
}

impl Clone for LimitPosition {
    fn clone(&self) -> (r: Self)
        ensures
            r@ == self@,
    {
        LimitPosition {
            investment: self.investment.clone(),
            buying_low: self.buying_low.clone(),
            buying_high: self.buying_high.clone(),
            selling_low: self.selling_low.clone(),
            selling_high: self.selling_high.clone(),
            position: match &self.position {
                Some(q) => Some(q.clone()),
                None => None,
            },
        }
    }
}

/// The configuration of the spot-trading limit strategy: the instrument it
/// trades and its price-range positions.
#[derive(Debug)]
pub struct PromiseProcessBinanceSpotLimit {
    pub symbol: String,
    pub positions: Vec<LimitPosition>,
}

/// The mathematical value of a `PromiseProcessBinanceSpotLimit`.
#[verifier::ext_equal]
pub struct PromiseProcessBinanceSpotLimitView {
    pub symbol: Seq<char>,
    pub positions: Seq<LimitPositionView>,
}

impl View for PromiseProcessBinanceSpotLimit {
    type V = PromiseProcessBinanceSpotLimitView;

    open spec fn view(&self) -> PromiseProcessBinanceSpotLimitView {
        PromiseProcessBinanceSpotLimitView {
            symbol: self.symbol@,
            positions: views_of(self.positions@),
        }
    }
}

impl Clone for PromiseProcessBinanceSpotLimit {
    fn clone(&self) -> (r: Self)
        ensures
            r@ == self@,
    {
        let mut positions: Vec<LimitPosition> = Vec::new();
        let mut i: usize = 0;
        let n = self.positions.len();
        while i < n
            invariant
                0 <= i <= n,
                n == self.positions@.len(),
                positions@.len() == i,
                forall|k: int| 0 <= k < i ==> positions@[k]@ == self@.positions[k],
            decreases n - i,
        {
            positions.push(self.positions[i].clone());
            i += 1;
        }
        let r = PromiseProcessBinanceSpotLimit { symbol: self.symbol.clone(), positions };
        proof {
            assert(r@.positions =~= self@.positions);
            assert(r@ =~= self@);
        }
        r
    }
}

/// A letter or a digit: what an instrument symbol is written with.
pub open spec fn is_symbol_char(c: char) -> bool {
    (48 <= c as int && c as int <= 57) || (65 <= c as int && c as int <= 90) || (97 <= c as int
        && c as int <= 122)
}

/// A digit, a dot or a minus sign: what a decimal amount is written with.
pub open spec fn is_decimal_char(c: char) -> bool {
    (48 <= c as int && c as int <= 57) || c as int == 46 || c as int == 45
}

/// A nonempty run of symbol characters.
pub open spec fn symbol_token_valid(t: Seq<char>) -> bool {
    t.len() > 0 && forall|i: int| 0 <= i < t.len() ==> is_symbol_char(#[trigger] t[i])
}

/// A nonempty run of decimal characters.
pub open spec fn decimal_token_valid(t: Seq<char>) -> bool {
    t.len() > 0 && forall|i: int| 0 <= i < t.len() ==> is_decimal_char(#[trigger] t[i])
}

/// Whether every amount of the position is written as a decimal token.
pub open spec fn limit_position_valid(p: LimitPositionView) -> bool {
    &&& decimal_token_valid(p.investment)
    &&& decimal_token_valid(p.buying_low)
    &&& decimal_token_valid(p.buying_high)
    &&& decimal_token_valid(p.selling_low)
    &&& decimal_token_valid(p.selling_high)
    &&& match p.position {
        Some(q) => decimal_token_valid(q),
        None => true,
    }
}

/// Whether the whole configuration is well formed: a valid symbol and valid
/// positions throughout.
pub open spec fn process_valid(c: PromiseProcessBinanceSpotLimitView) -> bool {
    symbol_token_valid(c.symbol) && forall|i: int|
        0 <= i < c.positions.len() ==> limit_position_valid(#[trigger] c.positions[i])
}

/// The token a position size is written as: an underscore when nothing is
/// held.
pub open spec fn opt_token(o: Option<Seq<char>>) -> Seq<char> {
    match o {
        Some(t) => t,
        None => seq!['_'],
    }
}

/// The six tokens of one position.
pub open spec fn pos_tokens(p: LimitPositionView) -> Seq<Seq<char>> {
    seq![
        p.investment,
        p.buying_low,
        p.buying_high,
        p.selling_low,
        p.selling_high,
        opt_token(p.position),
    ]
}

/// The tokens of all positions, in order.
pub open spec fn flat_tokens(ps: Seq<LimitPositionView>) -> Seq<Seq<char>>
    decreases ps.len(),
{
    if ps.len() == 0 {
        Seq::empty()
    } else {
        flat_tokens(ps.drop_last()) + pos_tokens(ps.last())
    }
}

/// The tokens of a whole configuration: the symbol, then each position.
pub open spec fn config_tokens(c: PromiseProcessBinanceSpotLimitView) -> Seq<Seq<char>> {
    seq![c.symbol] + flat_tokens(c.positions)
}

/// What `serialize` produces: the tokens joined with commas.
pub open spec fn encode_spec(c: PromiseProcessBinanceSpotLimitView) -> Seq<char> {
    spec_join(config_tokens(c), ',')
}

/// Each position contributes exactly six tokens.
pub proof fn lemma_flat_len(ps: Seq<LimitPositionView>)
    ensures
        flat_tokens(ps).len() == 6 * ps.len(),
    decreases ps.len(),
{
    if ps.len() > 0 {
        lemma_flat_len(ps.drop_last());
    }
}

/// The token at offset `6 * j + k` belongs to position `j`.
pub proof fn lemma_flat_index(ps: Seq<LimitPositionView>, j: int, k: int)
    requires
        0 <= j < ps.len(),
        0 <= k < 6,
    ensures
        flat_tokens(ps)[6 * j + k] == pos_tokens(ps[j])[k],
    decreases ps.len(),
{
    lemma_flat_len(ps.drop_last());
    if j == ps.len() - 1 {
        assert(flat_tokens(ps)[6 * j + k] == pos_tokens(ps.last())[6 * j + k - 6 * (ps.len() - 1)]);
    } else {
        lemma_flat_index(ps.drop_last(), j, k);
        assert(ps.drop_last()[j] == ps[j]);
    }
}

/// One more position appends its six tokens.
pub proof fn lemma_flat_take_succ(ps: Seq<LimitPositionView>, j: int)
    requires
        0 <= j < ps.len(),
    ensures
        flat_tokens(ps.take(j + 1)) == flat_tokens(ps.take(j)) + pos_tokens(ps[j]),
{
    assert(ps.take(j + 1).drop_last() =~= ps.take(j));
    assert(ps.take(j + 1).last() == ps[j]);
}

/// The tokens of a well-formed configuration never hold a comma, and there
/// is one for the symbol plus six for each position.
pub proof fn lemma_config_tokens_shape(c: PromiseProcessBinanceSpotLimitView)
    requires
        process_valid(c),
    ensures
        tokens_free_of(config_tokens(c), ','),
        config_tokens(c).len() == 1 + 6 * c.positions.len(),
{
    lemma_flat_len(c.positions);
    let ts = config_tokens(c);
    assert forall|i: int| 0 <= i < ts.len() implies has_no_char(#[trigger] ts[i], ',') by {
        if i == 0 {
            assert(ts[0] == c.symbol);
            assert(forall|x: int| 0 <= x < c.symbol.len() ==> c.symbol[x] != ',') by {
                assert(',' as int == 44);
            }
        } else {
            let j = (i - 1) / 6;
            let k = (i - 1) % 6;
            vstd::arithmetic::div_mod::lemma_fundamental_div_mod(i - 1, 6);
            vstd::arithmetic::div_mod::lemma_mod_bound(i - 1, 6);
            assert(i - 1 == 6 * j + k);
            assert(0 <= k < 6);
            assert(6 * j >= -5 && 6 * j <= 6 * c.positions.len() - 1);
            assert(0 <= j < c.positions.len());
            lemma_flat_index(c.positions, j, k);
            assert(ts[i] == flat_tokens(c.positions)[i - 1]);
            let p = c.positions[j];
            assert(limit_position_valid(p));
            let t = pos_tokens(p)[k];
            assert(',' as int == 44 && '_' as int == 95);
            if k == 5 {
                match p.position {
                    Some(q) => {
                        assert(forall|x: int| 0 <= x < q.len() ==> q[x] != ',');
                    },
                    None => {
                        assert(opt_token(p.position) =~= seq!['_']);
                        assert(forall|x: int| 0 <= x < t.len() ==> t[x] != ',');
                    },
                }
            } else {
                assert(decimal_token_valid(t));
                assert(forall|x: int| 0 <= x < t.len() ==> t[x] != ',');
            }
        }
    }
}

/// Two well-formed configurations with the same tokens are the same
/// configuration.
pub proof fn lemma_config_tokens_injective(
    c1: PromiseProcessBinanceSpotLimitView,
    c2: PromiseProcessBinanceSpotLimitView,
)
    requires
        process_valid(c1),
        process_valid(c2),
        config_tokens(c1) == config_tokens(c2),
    ensures
        c1 == c2,
{
    lemma_flat_len(c1.positions);
    lemma_flat_len(c2.positions);
    let ts = config_tokens(c1);
    assert(c1.symbol == ts[0]);
    assert(c2.symbol == ts[0]);
    assert(ts.len() == 1 + 6 * c1.positions.len());
    assert(config_tokens(c2).len() == 1 + 6 * c2.positions.len());
    assert(6 * c1.positions.len() == 6 * c2.positions.len());
    assert(c1.positions.len() == c2.positions.len());
    assert forall|j: int| 0 <= j < c1.positions.len() implies c1.positions[j]
        == c2.positions[j] by {
        let p1 = c1.positions[j];
        let p2 = c2.positions[j];
        assert forall|k: int| 0 <= k < 6 implies pos_tokens(p1)[k] == pos_tokens(p2)[k] by {
            lemma_flat_index(c1.positions, j, k);
            lemma_flat_index(c2.positions, j, k);
            assert(0 <= 6 * j + k);
            assert(6 * j <= 6 * (c1.positions.len() - 1));
            assert(6 * j + k < flat_tokens(c1.positions).len());
            assert(ts == seq![c1.symbol] + flat_tokens(c1.positions));
            assert((seq![c1.symbol] + flat_tokens(c1.positions))[1 + 6 * j + k] == flat_tokens(
                c1.positions,
            )[(1 + 6 * j + k) - 1]);
            assert((seq![c2.symbol] + flat_tokens(c2.positions))[1 + 6 * j + k] == flat_tokens(
                c2.positions,
            )[(1 + 6 * j + k) - 1]);
        }
        assert(p1.investment == pos_tokens(p1)[0] && p2.investment == pos_tokens(p2)[0]);
        assert(p1.buying_low == pos_tokens(p1)[1] && p2.buying_low == pos_tokens(p2)[1]);
        assert(p1.buying_high == pos_tokens(p1)[2] && p2.buying_high == pos_tokens(p2)[2]);
        assert(p1.selling_low == pos_tokens(p1)[3] && p2.selling_low == pos_tokens(p2)[3]);
        assert(p1.selling_high == pos_tokens(p1)[4] && p2.selling_high == pos_tokens(p2)[4]);
        assert(opt_token(p1.position) == pos_tokens(p1)[5] && opt_token(p2.position) == pos_tokens(
            p2,
        )[5]);
        assert(opt_token(p1.position) == opt_token(p2.position));
        match (p1.position, p2.position) {
            (Some(q1), Some(q2)) => {
                assert(q1 == q2);
            },
            (Some(q1), None) => {
                assert(q1 =~= seq!['_']);
                assert(is_decimal_char(q1[0]));
                assert('_' as int == 95);
                assert(false);
            },
            (None, Some(q2)) => {
                assert(q2 =~= seq!['_']);
                assert(is_decimal_char(q2[0]));
                assert('_' as int == 95);
                assert(false);
            },
            (None, None) => {},
        }
        assert(p1 =~= p2);
    }
    assert(c1.positions =~= c2.positions);
    assert(c1 =~= c2);
}

/// Serializes the configuration into its comma-separated form.
pub fn serialize_process_binance_spot_limit(c: &PromiseProcessBinanceSpotLimit) -> (r: String)
    ensures
        r@ == encode_spec(c@),
{
    let mut tokens: Vec<String> = Vec::new();
    tokens.push(c.symbol.clone());
    proof {
        assert(c@.positions.take(0) =~= Seq::<LimitPositionView>::empty());
        assert(views_of(tokens@) =~= seq![c@.symbol] + flat_tokens(c@.positions.take(0)));
    }
    let mut j: usize = 0;
    let n = c.positions.len();
    while j < n
        invariant
            0 <= j <= n,
            n == c.positions@.len(),
            n == c@.positions.len(),
            views_of(tokens@) == seq![c@.symbol] + flat_tokens(c@.positions.take(j as int)),
        decreases n - j,
    {
        let ghost prev = views_of(tokens@);
        let p = &c.positions[j];
        tokens.push(p.investment.clone());
        tokens.push(p.buying_low.clone());
        tokens.push(p.buying_high.clone());
        tokens.push(p.selling_low.clone());
        tokens.push(p.selling_high.clone());
        match &p.position {
            Some(q) => tokens.push(q.clone()),
            None => tokens.push(String::from_str("_")),
        }
        proof {
            reveal_strlit("_");
            assert("_"@ =~= seq!['_']);
            assert(c@.positions[j as int] == c.positions@[j as int]@);
            assert(tokens@.len() == prev.len() + 6);
            assert(views_of(tokens@) =~= prev + pos_tokens(c@.positions[j as int]));
            lemma_flat_take_succ(c@.positions, j as int);
            assert(views_of(tokens@) =~= seq![c@.symbol] + flat_tokens(
                c@.positions.take(j as int + 1),
            ));
        }
        j += 1;
    }
    proof {
        assert(c@.positions.take(n as int) =~= c@.positions);
        assert(views_of(tokens@) =~= config_tokens(c@));
    }
    join_commas(&tokens)
}


/// What `deserialize` recovers: the one well-formed configuration the text
/// is the serialization of, if any.
pub open spec fn decode_spec(s: Seq<char>) -> Option<PromiseProcessBinanceSpotLimitView> {
    if exists|c: PromiseProcessBinanceSpotLimitView| process_valid(c) && encode_spec(c) == s {
        Some(choose|c: PromiseProcessBinanceSpotLimitView| process_valid(c) && encode_spec(c) == s)
    } else {
        None
    }
}

/// What the comma-split of any serialized well-formed configuration looks
/// like: one token more than a multiple of six, a valid symbol first, then
/// groups of five decimal tokens and one position token.
proof fn lemma_encoded_shape(s: Seq<char>)
    requires
        exists|c: PromiseProcessBinanceSpotLimitView| process_valid(c) && encode_spec(c) == s,
    ensures
        spec_split(s, ',').len() >= 1,
        spec_split(s, ',').len() % 6 == 1,
        symbol_token_valid(spec_split(s, ',')[0]),
        forall|m: int|
            1 <= m < spec_split(s, ',').len() && #[trigger] ((m - 1) % 6) < 5
                ==> decimal_token_valid(spec_split(s, ',')[m]),
        forall|m: int|
            1 <= m < spec_split(s, ',').len() && #[trigger] ((m - 1) % 6) == 5 ==> (spec_split(
                s,
                ',',
            )[m] == seq!['_'] || decimal_token_valid(spec_split(s, ',')[m])),
{
    let c = choose|c: PromiseProcessBinanceSpotLimitView| process_valid(c) && encode_spec(c) == s;
    lemma_config_tokens_shape(c);
    lemma_flat_len(c.positions);
    lemma_split_join(config_tokens(c), ',');
    let ts = spec_split(s, ',');
    assert(ts == config_tokens(c));
    let ln = c.positions.len() as int;
    assert(ts.len() == 6 * ln + 1);
    vstd::arithmetic::div_mod::lemma_mod_multiples_vanish(ln, 1, 6);
    vstd::arithmetic::div_mod::lemma_small_mod(1, 6);
    assert(ts.len() % 6 == 1);
    assert(symbol_token_valid(ts[0]));
    assert forall|m: int| 1 <= m < ts.len() implies (((m - 1) % 6 < 5 ==> decimal_token_valid(
        ts[m],
    )) && ((m - 1) % 6 == 5 ==> (ts[m] == seq!['_'] || decimal_token_valid(ts[m])))) by {
        let j = (m - 1) / 6;
        let k = (m - 1) % 6;
        vstd::arithmetic::div_mod::lemma_fundamental_div_mod(m - 1, 6);
        vstd::arithmetic::div_mod::lemma_mod_bound(m - 1, 6);
        assert(m - 1 == 6 * j + k);
        assert(0 <= k < 6);
        assert(6 * j >= -5 && 6 * j <= 6 * ln - 1);
        assert(0 <= j < ln);
        lemma_flat_index(c.positions, j, k);
        assert(ts[m] == (seq![c.symbol] + flat_tokens(c.positions))[1 + 6 * j + k]);
        assert(ts[m] == flat_tokens(c.positions)[6 * j + k]);
        let pp = c.positions[j];
        assert(limit_position_valid(pp));
        if k == 5 {
            match pp.position {
                Some(q) => {
                    assert(ts[m] == q);
                },
                None => {
                    assert(ts[m] == opt_token(pp.position));
                },
            }
        }
    }
}

/// Whether every character of the token may spell a decimal amount, and
/// there is at least one.
fn check_decimal_token(t: &String) -> (b: bool)
    ensures
        b == decimal_token_valid(t@),
{
    let st = t.as_str();
    let n = st.unicode_len();
    if n == 0 {
        return false;
    }
    let mut i: usize = 0;
    while i < n
        invariant
            0 <= i <= n,
            n == t@.len(),
            st@ == t@,
            forall|x: int| 0 <= x < i ==> is_decimal_char(#[trigger] t@[x]),
        decreases n - i,
    {
        let c = st.get_char(i);
        let u = c as u32;
        if !((48 <= u && u <= 57) || u == 46 || u == 45) {
            proof {
                assert(t@[i as int] == c);
                assert(!is_decimal_char(c));
            }
            return false;
        }
        i += 1;
    }
    true
}

/// Whether every character of the token may spell an instrument symbol, and
/// there is at least one.
fn check_symbol_token(t: &String) -> (b: bool)
    ensures
        b == symbol_token_valid(t@),
{
    let st = t.as_str();
    let n = st.unicode_len();
    if n == 0 {
        return false;
    }
    let mut i: usize = 0;
    while i < n
        invariant
            0 <= i <= n,
            n == t@.len(),
            st@ == t@,
            forall|x: int| 0 <= x < i ==> is_symbol_char(#[trigger] t@[x]),
        decreases n - i,
    {
        let c = st.get_char(i);
        let u = c as u32;
        if !((48 <= u && u <= 57) || (65 <= u && u <= 90) || (97 <= u && u <= 122)) {
            proof {
                assert(t@[i as int] == c);
                assert(!is_symbol_char(c));
            }
            return false;
        }
        i += 1;
    }
    true
}

/// Whether the token is the lone underscore that stands for no position.
fn check_underscore_token(t: &String) -> (b: bool)
    ensures
        b == (t@ == seq!['_']),
{
    let st = t.as_str();
    let n = st.unicode_len();
    if n != 1 {
        proof {
            assert(t@ != seq!['_']) by {
                assert(seq!['_'].len() == 1);
            }
        }
        return false;
    }
    let c = st.get_char(0);
    let r = c == '_';
    proof {
        if r {
            assert(t@ =~= seq!['_']);
        } else {
            assert(t@[0] != seq!['_'][0]);
        }
    }
    r
}

/// Deserializes a configuration from its comma-separated form; `None`
/// exactly when the text is not the serialization of any well-formed
/// configuration.
pub fn deserialize_process_binance_spot_limit(s: &str) -> (r: Option<
    PromiseProcessBinanceSpotLimit,
>)
    ensures
        r matches Some(c) ==> decode_spec(s@) == Some(c@),
        r is None ==> decode_spec(s@) is None,
{
    let tokens = split_str(s, ',');
    let ghost ts = spec_split(s@, ',');
    proof {
        crate::text::lemma_split_rec_len(s@, ',', Seq::<char>::empty());
        assert(views_of(tokens@).len() == ts.len());
    }
    let n = tokens.len();
    if n % 6 != 1 {
        proof {
            if exists|c: PromiseProcessBinanceSpotLimitView| process_valid(c) && encode_spec(c)
                == s@ {
                lemma_encoded_shape(s@);
                assert(false);
            }
        }
        return None;
    }
    if !check_symbol_token(&tokens[0]) {
        proof {
            if exists|c: PromiseProcessBinanceSpotLimitView| process_valid(c) && encode_spec(c)
                == s@ {
                lemma_encoded_shape(s@);
                assert(tokens@[0]@ == ts[0]);
                assert(false);
            }
        }
        return None;
    }
    let groups = (n - 1) / 6;
    proof {
        vstd::arithmetic::div_mod::lemma_fundamental_div_mod(n as int, 6);
        vstd::arithmetic::div_mod::lemma_fundamental_div_mod(n as int - 1, 6);
        vstd::arithmetic::div_mod::lemma_mod_bound(n as int - 1, 6);
        vstd::arithmetic::div_mod::lemma_mod_multiples_vanish(n as int / 6, 0, 6);
        vstd::arithmetic::div_mod::lemma_small_mod(0, 6);
        assert(n as int - 1 == 6 * (n as int / 6));
        assert((n as int - 1) % 6 == 0);
        assert(6 * (groups as int) == n as int - 1);
    }
    let mut positions: Vec<LimitPosition> = Vec::new();
    let mut j: usize = 0;
    proof {
        assert(flat_tokens(views_of(positions@)) =~= views_of(tokens@).subrange(1, 1));
    }
    while j < groups
        invariant
            0 <= j <= groups,
            n == tokens@.len(),
            6 * (groups as int) == n as int - 1,
            ts == views_of(tokens@),
            ts == spec_split(s@, ','),
            views_of(positions@).len() == j,
            forall|i: int|
                0 <= i < j ==> limit_position_valid(#[trigger] views_of(positions@)[i]),
            flat_tokens(views_of(positions@)) == views_of(tokens@).subrange(1, 1 + 6 * j as int),
        decreases groups - j,
    {
        proof {
            assert(6 * (j as int) < 6 * (groups as int));
        }
        let base = 1 + 6 * j;
        let ghost bi = base as int;
        proof {
            assert(bi + 5 <= n as int - 1);
        }
        let mut ok = check_decimal_token(&tokens[base]);
        ok = ok && check_decimal_token(&tokens[base + 1]);
        ok = ok && check_decimal_token(&tokens[base + 2]);
        ok = ok && check_decimal_token(&tokens[base + 3]);
        ok = ok && check_decimal_token(&tokens[base + 4]);
        if !ok {
            proof {
                if exists|c: PromiseProcessBinanceSpotLimitView| process_valid(c) && encode_spec(c)
                    == s@ {
                    lemma_encoded_shape(s@);
                    assert forall|k: int| 0 <= k < 5 implies decimal_token_valid(
                        #[trigger] ts[bi + k],
                    ) by {
                        vstd::arithmetic::div_mod::lemma_mod_multiples_vanish(j as int, k, 6);
                        vstd::arithmetic::div_mod::lemma_small_mod(k as nat, 6);
                        assert((bi + k - 1) % 6 == k);
                    }
                    assert(decimal_token_valid(ts[bi + 0]) && decimal_token_valid(ts[bi + 1])
                        && decimal_token_valid(ts[bi + 2]) && decimal_token_valid(ts[bi + 3])
                        && decimal_token_valid(ts[bi + 4]));
                    assert(ts[bi] == ts[bi + 0]);
                    assert(tokens@[bi]@ == ts[bi]);
                    assert(tokens@[bi + 1]@ == ts[bi + 1]);
                    assert(tokens@[bi + 2]@ == ts[bi + 2]);
                    assert(tokens@[bi + 3]@ == ts[bi + 3]);
                    assert(tokens@[bi + 4]@ == ts[bi + 4]);
                    assert(false);
                }
            }
            return None;
        }
        let position: Option<String> = if check_underscore_token(&tokens[base + 5]) {
            None
        } else if check_decimal_token(&tokens[base + 5]) {
            Some(tokens[base + 5].clone())
        } else {
            proof {
                if exists|c: PromiseProcessBinanceSpotLimitView| process_valid(c) && encode_spec(c)
                    == s@ {
                    lemma_encoded_shape(s@);
                    vstd::arithmetic::div_mod::lemma_mod_multiples_vanish(j as int, 5, 6);
                    vstd::arithmetic::div_mod::lemma_small_mod(5, 6);
                    assert((bi + 5 - 1) % 6 == 5);
                    assert(tokens@[bi + 5]@ == ts[bi + 5]);
                    assert(false);
                }
            }
            return None;
        };
        let item = LimitPosition {
            investment: tokens[base].clone(),
            buying_low: tokens[base + 1].clone(),
            buying_high: tokens[base + 2].clone(),
            selling_low: tokens[base + 3].clone(),
            selling_high: tokens[base + 4].clone(),
            position,
        };
        let ghost prev = views_of(positions@);
        positions.push(item);
        proof {
            assert(limit_position_valid(item@));
            assert(pos_tokens(item@) =~= views_of(tokens@).subrange(bi, bi + 6));
            assert(views_of(positions@) =~= prev.push(item@));
            assert(prev.push(item@).drop_last() =~= prev);
            assert(flat_tokens(prev.push(item@)) == flat_tokens(prev) + pos_tokens(item@));
            assert(views_of(tokens@).subrange(1, bi) + views_of(tokens@).subrange(bi, bi + 6)
                =~= views_of(tokens@).subrange(1, bi + 6));
        }
        j += 1;
    }
    let c = PromiseProcessBinanceSpotLimit { symbol: tokens[0].clone(), positions };
    proof {
        assert(views_of(tokens@).subrange(1, n as int) =~= views_of(tokens@).subrange(
            1,
            1 + 6 * groups as int,
        ));
        assert(config_tokens(c@) =~= views_of(tokens@));
        assert(process_valid(c@));
        lemma_join_split(s@, ',');
        assert(encode_spec(c@) == s@);
        assert(process_valid(c@) && encode_spec(c@) == s@);
        let cc = choose|cc: PromiseProcessBinanceSpotLimitView|
            process_valid(cc) && encode_spec(cc) == s@;
        lemma_config_tokens_shape(c@);
        lemma_config_tokens_shape(cc);
        lemma_split_join(config_tokens(c@), ',');
        lemma_split_join(config_tokens(cc), ',');
        lemma_config_tokens_injective(c@, cc);
        assert(decode_spec(s@) == Some(c@));
    }
    Some(c)
}

/// Law: deserializing the serialization of any well-formed configuration
/// gives exactly that configuration back.
pub proof fn lemma_process_round_trip(c: PromiseProcessBinanceSpotLimitView)
    requires
        process_valid(c),
    ensures
        decode_spec(encode_spec(c)) == Some(c),
{
    let s = encode_spec(c);
    assert(process_valid(c) && encode_spec(c) == s);
    let cc = choose|cc: PromiseProcessBinanceSpotLimitView|
        process_valid(cc) && encode_spec(cc) == s;
    lemma_config_tokens_shape(c);
    lemma_config_tokens_shape(cc);
    lemma_split_join(config_tokens(c), ',');
    lemma_split_join(config_tokens(cc), ',');
    lemma_config_tokens_injective(c, cc);
}


impl Promise {
    /// A fresh promise around a spot-limit configuration, serialized into
    /// the promise's configuration column.
    pub fn with_process_binance_spot_limit(
        owner: PersonIdentifier,
        process: &PromiseProcessBinanceSpotLimit,
    ) -> (r: Promise)
        ensures
            r@.identifier.len() == 36,
            r@.owner == owner@,
            r@.process == encode_spec(process@),
            r@.category is BinanceSpotLimit,
            r@.status is Stopped,
            r@.total_runs == 0,
            r@.interval == crate::database::promise::PROMISE_DEFAULT_INTERVAL,
            r@.timeout == crate::database::promise::PROMISE_DEFAULT_TIMEOUT,
            r@.max_concurrent == crate::database::promise::PROMISE_DEFAULT_MAX_CONCURRENT,
    {
        let encoded = serialize_process_binance_spot_limit(process);
        Promise::with_process(owner, PromiseProcessCategory::BinanceSpotLimit, encoded)
    }

    /// The spot-limit configuration persisted in this promise, if its column
    /// deserializes.
    pub fn process_binance_spot_limit(&self) -> (r: Option<PromiseProcessBinanceSpotLimit>)
        ensures
            r matches Some(c) ==> decode_spec(self@.process) == Some(c@),
            r is None ==> decode_spec(self@.process) is None,
    {
        deserialize_process_binance_spot_limit(self.process.as_str())
    }
}

} // verus!
