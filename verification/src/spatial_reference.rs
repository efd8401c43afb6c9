//! Spatial references: an authority and a code, and the strings that name
//! them towards projection libraries.

use vstd::prelude::*;

verus! {

/// A spatial reference authority that is part of a spatial reference
/// definition.
#[derive(Clone, Copy, Debug, PartialEq, Eq, Structural, Hash)]
pub enum SpatialReferenceAuthority {
    Epsg,
    SrOrg,
    Iau2000,
    Esri,
}

/// The decimal digit character of `d`.
pub open spec fn spec_digit_char(d: int) -> char {
    if d == 0 {
        '0'
    } else if d == 1 {
        '1'
    } else if d == 2 {
        '2'
    } else if d == 3 {
        '3'
    } else if d == 4 {
        '4'
    } else if d == 5 {
        '5'
    } else if d == 6 {
        '6'
    } else if d == 7 {
        '7'
    } else if d == 8 {
        '8'
    } else {
        '9'
    }
}

/// The decimal representation of a nonnegative number, most significant
/// digit first.
pub open spec fn spec_decimal(n: int) -> Seq<char>
    decreases n,
{
    if n < 10 {
        seq![spec_digit_char(n)]
    } else {
        spec_decimal(n / 10) + seq![spec_digit_char(n % 10)]
    }
}

/// The single-character string of one decimal digit.
fn digit_str(d: u32) -> (r: &'static str)
    requires
        d < 10,
    ensures
        r@ == seq![spec_digit_char(d as int)],
{
    proof {
        reveal_strlit("0");
        reveal_strlit("1");
        reveal_strlit("2");
        reveal_strlit("3");
        reveal_strlit("4");
        reveal_strlit("5");
        reveal_strlit("6");
        reveal_strlit("7");
        reveal_strlit("8");
        reveal_strlit("9");
    }
    let r = if d == 0 {
        "0"
    } else if d == 1 {
        "1"
    } else if d == 2 {
        "2"
    } else if d == 3 {
        "3"
    } else if d == 4 {
        "4"
    } else if d == 5 {
        "5"
    } else if d == 6 {
        "6"
    } else if d == 7 {
        "7"
    } else if d == 8 {
        "8"
    } else {
        "9"
    };
    proof {
        assert(r@ =~= seq![spec_digit_char(d as int)]);
    }
    r
}

/// Formats a number in decimal.
pub fn u32_decimal_string(n: u32) -> (r: String)
    ensures
        r@ == spec_decimal(n as int),
    decreases n,
{
    if n < 10 {
        let s = digit_str(n);
        let r = s.to_owned();
        r
    } else {
        let mut r = u32_decimal_string(n / 10);
        r.append(digit_str(n % 10));
        r
    }
}

/// A spatial reference: an authority and a numeric code.
#[derive(Clone, Copy, Debug, PartialEq, Eq, Structural, Hash)]
pub struct SpatialReference {
    authority: SpatialReferenceAuthority,
    code: u32,
}

/// The name of an authority, as it appears in an srs string.
pub open spec fn spec_authority_chars(a: SpatialReferenceAuthority) -> Seq<char> {
    match a {
        SpatialReferenceAuthority::Epsg => "EPSG"@,
        SpatialReferenceAuthority::SrOrg => "SR-ORG"@,
        SpatialReferenceAuthority::Iau2000 => "IAU2000"@,
        SpatialReferenceAuthority::Esri => "ESRI"@,
    }
}

/// The srs string of a reference: `authority:code`.
pub open spec fn spec_srs_chars(s: SpatialReference) -> Seq<char> {
    spec_authority_chars(s.spec_authority()) + seq![':'] + spec_decimal(s.spec_code() as int)
}

impl SpatialReference {
    pub closed spec fn spec_authority(self) -> SpatialReferenceAuthority {
        self.authority
    }

    pub closed spec fn spec_code(self) -> u32 {
        self.code
    }

    pub fn new(authority: SpatialReferenceAuthority, code: u32) -> (r: SpatialReference)
        ensures
            r.spec_authority() == authority,
            r.spec_code() == code,
    {
        SpatialReference { authority, code }
    }

    pub fn authority(&self) -> (r: &SpatialReferenceAuthority)
        ensures
            *r == self.spec_authority(),
    {
        &self.authority
    }

    pub fn code(self) -> (r: u32)
        ensures
            r == self.spec_code(),
    {
        self.code
    }

    /// The srs string `authority:code` of this reference.
    pub fn srs_string(&self) -> (r: String)
        ensures
            r@ == spec_srs_chars(*self),
    {
        let mut s = match self.authority {
            SpatialReferenceAuthority::Epsg => {
                let t: &str = "EPSG";
                t.to_owned()
            },
            SpatialReferenceAuthority::SrOrg => {
                let t: &str = "SR-ORG";
                t.to_owned()
            },
            SpatialReferenceAuthority::Iau2000 => {
                let t: &str = "IAU2000";
                t.to_owned()
            },
            SpatialReferenceAuthority::Esri => {
                let t: &str = "ESRI";
                t.to_owned()
            },
        };
        proof {
            reveal_strlit(":");
        }
        s.append(":");
        let num = u32_decimal_string(self.code);
        s.append(num.as_str());
        proof {
            assert(s@ =~= spec_srs_chars(*self));
        }
        s
    }

    /// The proj-library initialization string of this reference: the srs
    /// string for authorities that proj resolves itself, the well-known
    /// geostationary definition for the one supported SR-ORG code, and an
    /// error for the rest.
    pub fn proj_string(self) -> (r: Result<String, SpatialReferenceError>)
        ensures
            r is Ok <==> self.spec_authority() == SpatialReferenceAuthority::Epsg
                || self.spec_authority() == SpatialReferenceAuthority::Iau2000 || (
            self.spec_authority() == SpatialReferenceAuthority::SrOrg && self.spec_code() == 81),
            r matches Ok(s) ==> (self.spec_authority() == SpatialReferenceAuthority::Epsg
                || self.spec_authority() == SpatialReferenceAuthority::Iau2000 ==> s@
                == spec_srs_chars(self)),
            r matches Ok(s) ==> (self.spec_authority() == SpatialReferenceAuthority::SrOrg ==> s@
                == "+proj=geos +lon_0=0 +h=35785831 +x_0=0 +y_0=0 +ellps=WGS84 +units=m +no_defs"@),
            r is Err ==> r == Result::<String, SpatialReferenceError>::Err(
                SpatialReferenceError::ProjStringUnresolvable,
            ),
    {
        match self.authority {
            SpatialReferenceAuthority::Epsg | SpatialReferenceAuthority::Iau2000 => Ok(
                self.srs_string(),
            ),
            SpatialReferenceAuthority::SrOrg => {
                if self.code == 81 {
                    let t: &str =
                        "+proj=geos +lon_0=0 +h=35785831 +x_0=0 +y_0=0 +ellps=WGS84 +units=m +no_defs";
                    Ok(t.to_owned())
                } else {
                    Err(SpatialReferenceError::ProjStringUnresolvable)
                }
            },
            SpatialReferenceAuthority::Esri => Err(
                SpatialReferenceError::ProjStringUnresolvable,
            ),
        }
    }

    /// The well-known geographic reference EPSG:4326.
    pub fn epsg_4326() -> (r: SpatialReference)
        ensures
            r.spec_authority() == SpatialReferenceAuthority::Epsg,
            r.spec_code() == 4326,
    {
        SpatialReference { authority: SpatialReferenceAuthority::Epsg, code: 4326 }
    }
}

/// The numeric value of a decimal digit character, and `10` for any other
/// character.
pub open spec fn spec_digit_val(c: char) -> int {
    if c == '0' {
        0
    } else if c == '1' {
        1
    } else if c == '2' {
        2
    } else if c == '3' {
        3
    } else if c == '4' {
        4
    } else if c == '5' {
        5
    } else if c == '6' {
        6
    } else if c == '7' {
        7
    } else if c == '8' {
        8
    } else if c == '9' {
        9
    } else {
        10
    }
}

/// Whether a character is a decimal digit.
pub open spec fn spec_is_digit(c: char) -> bool {
    spec_digit_val(c) < 10
}

/// The number a digit string denotes, most significant digit first.
pub open spec fn spec_digits_value(ds: Seq<char>) -> int
    decreases ds.len(),
{
    if ds.len() == 0 {
        0
    } else {
        spec_digits_value(ds.drop_last()) * 10 + spec_digit_val(ds.last())
    }
}

/// Every character of a decimal rendering is a digit, and there is at
/// least one.
pub proof fn lemma_decimal_all_digits(v: int)
    requires
        v >= 0,
    ensures
        spec_decimal(v).len() >= 1,
        forall|i: int| 0 <= i < spec_decimal(v).len() ==> spec_is_digit(#[trigger] spec_decimal(v)[i]),
    decreases v,
{
    if v >= 10 {
        vstd::arithmetic::div_mod::lemma_fundamental_div_mod(v, 10);
        lemma_decimal_all_digits(v / 10);
    }
}

/// A decimal rendering of more than one digit does not start with zero,
/// and one that starts with zero renders zero itself.
pub proof fn lemma_decimal_no_leading_zero(v: int)
    requires
        v >= 0,
    ensures
        spec_decimal(v).len() > 1 ==> spec_decimal(v)[0] != '0',
        spec_decimal(v).len() == 1 ==> spec_decimal(v)[0] == spec_digit_char(v),
    decreases v,
{
    if v >= 10 {
        vstd::arithmetic::div_mod::lemma_fundamental_div_mod(v, 10);
        lemma_decimal_no_leading_zero(v / 10);
        lemma_decimal_all_digits(v / 10);
        assert(v / 10 >= 1) by (nonlinear_arith)
            requires
                10 * (v / 10) + v % 10 == v,
                0 <= v % 10 < 10,
                v >= 10,
        ;
        assert(spec_decimal(v)[0] == spec_decimal(v / 10)[0]);
    }
}

/// Reading a decimal rendering back gives the rendered number.
pub proof fn lemma_decimal_value_roundtrip(v: int)
    requires
        v >= 0,
    ensures
        spec_digits_value(spec_decimal(v)) == v,
    decreases v,
{
    if v < 10 {
        let ds = spec_decimal(v);
        assert(ds.drop_last() =~= Seq::<char>::empty());
        assert(spec_digits_value(Seq::<char>::empty()) == 0);
    } else {
        vstd::arithmetic::div_mod::lemma_fundamental_div_mod(v, 10);
        lemma_decimal_value_roundtrip(v / 10);
        let ds = spec_decimal(v);
        assert(ds.drop_last() =~= spec_decimal(v / 10));
        assert(ds.last() == spec_digit_char(v % 10));
        assert(spec_digits_value(ds) == (v / 10) * 10 + (v % 10));
        assert((v / 10) * 10 + (v % 10) == v) by (nonlinear_arith)
            requires
                10 * (v / 10) + v % 10 == v,
        ;
    }
}

/// A digit string's value is nonnegative, and at least one when it does
/// not start with zero.
pub proof fn lemma_digits_value_nonneg(ds: Seq<char>)
    requires
        forall|i: int| 0 <= i < ds.len() ==> spec_is_digit(#[trigger] ds[i]),
    ensures
        spec_digits_value(ds) >= 0,
        ds.len() >= 1 && ds[0] != '0' ==> spec_digits_value(ds) >= 1,
    decreases ds.len(),
{
    if ds.len() > 0 {
        let dl = ds.drop_last();
        assert(forall|i: int| 0 <= i < dl.len() ==> spec_is_digit(#[trigger] dl[i]));
        lemma_digits_value_nonneg(dl);
        assert(spec_digits_value(ds) >= 0) by (nonlinear_arith)
            requires
                spec_digits_value(ds) == spec_digits_value(dl) * 10 + spec_digit_val(ds.last()),
                spec_digits_value(dl) >= 0,
                spec_digit_val(ds.last()) >= 0,
        ;
        if ds.len() >= 1 && ds[0] != '0' {
            if ds.len() == 1 {
                assert(ds.last() == ds[0]);
            } else {
                assert(dl[0] == ds[0]);
                assert(spec_digits_value(ds) >= 1) by (nonlinear_arith)
                    requires
                        spec_digits_value(ds) == spec_digits_value(dl) * 10 + spec_digit_val(
                            ds.last(),
                        ),
                        spec_digits_value(dl) >= 1,
                        spec_digit_val(ds.last()) >= 0,
                ;
            }
        }
    }
}

/// Along a digit string, every prefix's value stays at most the whole
/// string's value.
pub proof fn lemma_digits_value_prefix(ds: Seq<char>, j: int)
    requires
        0 <= j <= ds.len(),
        forall|i: int| 0 <= i < ds.len() ==> spec_is_digit(#[trigger] ds[i]),
    ensures
        0 <= spec_digits_value(ds.subrange(0, j)) <= spec_digits_value(ds),
    decreases ds.len() - j,
{
    let p = ds.subrange(0, j);
    assert(forall|i: int| 0 <= i < p.len() ==> spec_is_digit(#[trigger] p[i]));
    lemma_digits_value_nonneg(p);
    if j == ds.len() {
        assert(p =~= ds);
    } else {
        let q = ds.subrange(0, j + 1);
        assert(forall|i: int| 0 <= i < q.len() ==> spec_is_digit(#[trigger] q[i]));
        assert(q.drop_last() =~= p);
        assert(q.last() == ds[j]);
        assert(spec_digits_value(p) <= spec_digits_value(q)) by (nonlinear_arith)
            requires
                spec_digits_value(q) == spec_digits_value(p) * 10 + spec_digit_val(ds[j]),
                spec_digits_value(p) >= 0,
                spec_digit_val(ds[j]) >= 0,
        ;
        lemma_digits_value_prefix(ds, j + 1);
    }
}

/// The shape of a rendered srs string: the authority name (free of
/// colons), one colon, then the canonical decimal code.
pub proof fn lemma_srs_chars_shape(s: Seq<char>, w: SpatialReference)
    requires
        s == spec_srs_chars(w),
    ensures
        1 <= spec_authority_chars(w.spec_authority()).len() < s.len(),
        s[spec_authority_chars(w.spec_authority()).len() as int] == ':',
        forall|i: int|
            0 <= i < spec_authority_chars(w.spec_authority()).len() ==> s[i]
                == spec_authority_chars(w.spec_authority())[i] && s[i] != ':',
        s.subrange(0, spec_authority_chars(w.spec_authority()).len() as int)
            == spec_authority_chars(w.spec_authority()),
        s.subrange(
            spec_authority_chars(w.spec_authority()).len() + 1 as int,
            s.len() as int,
        ) == spec_decimal(w.spec_code() as int),
        forall|j: int|
            spec_authority_chars(w.spec_authority()).len() + 1 <= j < s.len() ==> spec_is_digit(
                #[trigger] s[j],
            ) && s[j] != ':',
        s.len() - (spec_authority_chars(w.spec_authority()).len() + 1) >= 1,
        s.len() - (spec_authority_chars(w.spec_authority()).len() + 1) > 1 ==> s[
            spec_authority_chars(w.spec_authority()).len() + 1 as int
        ] != '0',
        spec_digits_value(
            s.subrange(spec_authority_chars(w.spec_authority()).len() + 1 as int, s.len() as int),
        ) == w.spec_code(),
{
    reveal_strlit("EPSG");
    reveal_strlit("SR-ORG");
    reveal_strlit("IAU2000");
    reveal_strlit("ESRI");
    let a = spec_authority_chars(w.spec_authority());
    let d = spec_decimal(w.spec_code() as int);
    lemma_decimal_all_digits(w.spec_code() as int);
    lemma_decimal_no_leading_zero(w.spec_code() as int);
    lemma_decimal_value_roundtrip(w.spec_code() as int);
    match w.spec_authority() {
        SpatialReferenceAuthority::Epsg => {
            assert(forall|i: int| 0 <= i < a.len() ==> #[trigger] a[i] != ':');
        },
        SpatialReferenceAuthority::SrOrg => {
            assert(forall|i: int| 0 <= i < a.len() ==> #[trigger] a[i] != ':');
        },
        SpatialReferenceAuthority::Iau2000 => {
            assert(forall|i: int| 0 <= i < a.len() ==> #[trigger] a[i] != ':');
        },
        SpatialReferenceAuthority::Esri => {
            assert(forall|i: int| 0 <= i < a.len() ==> #[trigger] a[i] != ':');
        },
    }
    assert(s.subrange(0, a.len() as int) =~= a);
    assert(s.subrange(a.len() + 1 as int, s.len() as int) =~= d);
    assert forall|j: int| a.len() + 1 <= j < s.len() implies spec_is_digit(#[trigger] s[j]) && s[j]
        != ':' by {
        assert(s[j] == d[j - (a.len() + 1)]);
        assert(spec_is_digit(d[j - (a.len() + 1)]));
    }
    if d.len() > 1 {
        assert(s[a.len() + 1 as int] == d[0]);
    }
}

/// The numeric value of one decimal digit character, or nothing.
fn digit_of(c: char) -> (r: Option<u64>)
    ensures
        r is Some <==> spec_is_digit(c),
        r matches Some(v) ==> v == spec_digit_val(c) && v < 10,
{
    match c {
        '0' => Some(0),
        '1' => Some(1),
        '2' => Some(2),
        '3' => Some(3),
        '4' => Some(4),
        '5' => Some(5),
        '6' => Some(6),
        '7' => Some(7),
        '8' => Some(8),
        '9' => Some(9),
        _ => None,
    }
}

/// Whether the first `end` characters of `s` are exactly `name`.
fn prefix_matches(s: &str, end: usize, name: &str) -> (r: bool)
    requires
        end <= s@.len(),
    ensures
        r == (s@.subrange(0, end as int) == name@),
{
    let m = name.unicode_len();
    if m != end {
        proof {
            assert(s@.subrange(0, end as int).len() == end);
        }
        return false;
    }
    let mut i: usize = 0;
    while i < end
        invariant
            i <= end,
            end <= s@.len(),
            end == name@.len(),
            forall|j: int| 0 <= j < i ==> s@[j] == name@[j],
        decreases end - i,
    {
        let a = s.get_char(i);
        let b = name.get_char(i);
        if a != b {
            proof {
                assert(s@.subrange(0, end as int)[i as int] == s@[i as int]);
            }
            return false;
        }
        i = i + 1;
    }
    proof {
        assert(s@.subrange(0, end as int) =~= name@);
    }
    true
}

/// What it means for a string to name a reference: one of the four
/// authority names, a colon, and a non-empty digit string whose value is
/// the code — leading zeros allowed, as in a plain unsigned integer parse.
pub open spec fn spec_is_srs_of(s: Seq<char>, sr: SpatialReference) -> bool {
    let a = spec_authority_chars(sr.spec_authority());
    &&& a.len() + 1 < s.len()
    &&& s.subrange(0, a.len() as int) == a
    &&& s[a.len() as int] == ':'
    &&& forall|j: int| a.len() + 1 <= j < s.len() ==> spec_is_digit(#[trigger] s[j])
    &&& spec_digits_value(s.subrange(a.len() + 1 as int, s.len() as int)) == sr.spec_code()
}

/// The shape of a string that names a reference: the authority prefix is
/// free of colons, the colon position is the prefix length, and everything
/// after it is a digit.
pub proof fn lemma_srs_of_shape(s: Seq<char>, w: SpatialReference)
    requires
        spec_is_srs_of(s, w),
    ensures
        1 <= spec_authority_chars(w.spec_authority()).len(),
        spec_authority_chars(w.spec_authority()).len() + 1 < s.len(),
        s[spec_authority_chars(w.spec_authority()).len() as int] == ':',
        forall|i: int|
            0 <= i < spec_authority_chars(w.spec_authority()).len() ==> s[i]
                == spec_authority_chars(w.spec_authority())[i] && s[i] != ':',
        forall|j: int|
            spec_authority_chars(w.spec_authority()).len() + 1 <= j < s.len() ==> spec_is_digit(
                #[trigger] s[j],
            ) && s[j] != ':',
        spec_digits_value(
            s.subrange(spec_authority_chars(w.spec_authority()).len() + 1 as int, s.len() as int),
        ) == w.spec_code(),
{
    reveal_strlit("EPSG");
    reveal_strlit("SR-ORG");
    reveal_strlit("IAU2000");
    reveal_strlit("ESRI");
    let a = spec_authority_chars(w.spec_authority());
    match w.spec_authority() {
        SpatialReferenceAuthority::Epsg => {
            assert(forall|i: int| 0 <= i < a.len() ==> #[trigger] a[i] != ':');
        },
        SpatialReferenceAuthority::SrOrg => {
            assert(forall|i: int| 0 <= i < a.len() ==> #[trigger] a[i] != ':');
        },
        SpatialReferenceAuthority::Iau2000 => {
            assert(forall|i: int| 0 <= i < a.len() ==> #[trigger] a[i] != ':');
        },
        SpatialReferenceAuthority::Esri => {
            assert(forall|i: int| 0 <= i < a.len() ==> #[trigger] a[i] != ':');
        },
    }
    assert forall|i: int| 0 <= i < a.len() implies s[i] == a[i] && s[i] != ':' by {
        assert(s.subrange(0, a.len() as int)[i] == s[i]);
    }
}

/// The canonical rendering of a reference names that reference: parsing
/// gives back what `srs_string` printed.
pub proof fn lemma_canonical_parses(sr: SpatialReference)
    ensures
        spec_is_srs_of(spec_srs_chars(sr), sr),
{
    let s = spec_srs_chars(sr);
    lemma_srs_chars_shape(s, sr);
}

impl SpatialReference {
    /// Parses an srs string `authority:code` back into a reference.
    ///
    /// Accepts one of the four authority names, a colon, and the code as a
    /// plain digit string — leading zeros included, a sign not.
    #[verifier::rlimit(100)]
    #[verifier::spinoff_prover]
    pub fn from_str(s: &str) -> (r: Result<SpatialReference, SpatialReferenceError>)
        ensures
            r matches Ok(sr) ==> spec_is_srs_of(s@, sr),
            r is Ok <==> exists|sr: SpatialReference| spec_is_srs_of(s@, sr),
            r is Err ==> r == Result::<SpatialReference, SpatialReferenceError>::Err(
                SpatialReferenceError::InvalidSpatialReferenceString,
            ),
    {
        let n = s.unicode_len();
        // find the first colon
        let mut colon: usize = 0;
        let mut found = false;
        let mut i: usize = 0;
        while i < n && !found
            invariant
                i <= n,
                n == s@.len(),
                !found ==> forall|j: int| 0 <= j < i ==> s@[j] != ':',
                found ==> colon < i && s@[colon as int] == ':' && (forall|j: int|
                    0 <= j < colon ==> s@[j] != ':'),
            decreases n - i,
        {
            if s.get_char(i) == ':' {
                colon = i;
                found = true;
            }
            i = i + 1;
        }
        if !found {
            proof {
                if exists|sr: SpatialReference| spec_is_srs_of(s@, sr) {
                    let w = choose|sr: SpatialReference| spec_is_srs_of(s@, sr);
                    lemma_srs_of_shape(s@, w);
                }
            }
            return Err(SpatialReferenceError::InvalidSpatialReferenceString);
        }
        proof {
            if exists|sr: SpatialReference| spec_is_srs_of(s@, sr) {
                let w = choose|sr: SpatialReference| spec_is_srs_of(s@, sr);
                lemma_srs_of_shape(s@, w);
                assert(colon == spec_authority_chars(w.spec_authority()).len());
            }
        }
        // match the authority name before the colon
        let authority = if prefix_matches(s, colon, "EPSG") {
            SpatialReferenceAuthority::Epsg
        } else if prefix_matches(s, colon, "SR-ORG") {
            SpatialReferenceAuthority::SrOrg
        } else if prefix_matches(s, colon, "IAU2000") {
            SpatialReferenceAuthority::Iau2000
        } else if prefix_matches(s, colon, "ESRI") {
            SpatialReferenceAuthority::Esri
        } else {
            proof {
                if exists|sr: SpatialReference| spec_is_srs_of(s@, sr) {
                    let w = choose|sr: SpatialReference| spec_is_srs_of(s@, sr);
                    lemma_srs_of_shape(s@, w);
                }
            }
            return Err(SpatialReferenceError::InvalidSpatialReferenceString);
        };
        proof {
            assert(s@.subrange(0, colon as int) == spec_authority_chars(authority));
        }
        // parse the code digits after the colon
        let start = colon + 1;
        if start >= n {
            proof {
                if exists|sr: SpatialReference| spec_is_srs_of(s@, sr) {
                    let w = choose|sr: SpatialReference| spec_is_srs_of(s@, sr);
                    lemma_srs_of_shape(s@, w);
                }
            }
            return Err(SpatialReferenceError::InvalidSpatialReferenceString);
        }
        let mut value: u64 = 0;
        let mut j: usize = start;
        proof {
            assert(s@.subrange(start as int, start as int) =~= Seq::<char>::empty());
        }
        while j < n
            invariant
                start <= j <= n,
                start == colon + 1,
                colon < n,
                n == s@.len(),
                s@[colon as int] == ':',
                s@.subrange(0, colon as int) == spec_authority_chars(authority),
                forall|q: int|
                    start <= q < j ==> spec_is_digit(#[trigger] s@[q]),
                value <= 0xFFFF_FFFF,
                value == spec_digits_value(s@.subrange(start as int, j as int)),
            decreases n - j,
        {
            let c = s.get_char(j);
            let d = match digit_of(c) {
                Option::Some(d) => d,
                Option::None => {
                    proof {
                        if exists|sr: SpatialReference| spec_is_srs_of(s@, sr) {
                            let w = choose|sr: SpatialReference| spec_is_srs_of(s@, sr);
                            lemma_srs_of_shape(s@, w);
                        }
                    }
                    return Err(SpatialReferenceError::InvalidSpatialReferenceString);
                },
            };
            proof {
                let p = s@.subrange(start as int, j as int);
                let q = s@.subrange(start as int, j + 1);
                assert(q.drop_last() =~= p);
                assert(q.last() == s@[j as int]);
            }
            let next = value * 10 + d;
            if next > 0xFFFF_FFFF {
                proof {
                    if exists|sr: SpatialReference| spec_is_srs_of(s@, sr) {
                        let w = choose|sr: SpatialReference| spec_is_srs_of(s@, sr);
                        lemma_srs_of_shape(s@, w);
                        let ds = s@.subrange(start as int, n as int);
                        lemma_digits_value_prefix(ds, j + 1 - start);
                        assert(ds.subrange(0, j + 1 - start) =~= s@.subrange(start as int, j + 1));
                    }
                }
                return Err(SpatialReferenceError::InvalidSpatialReferenceString);
            }
            value = next;
            j = j + 1;
        }
        let code = value as u32;
        let sr = SpatialReference { authority, code };
        proof {
            let a = spec_authority_chars(authority);
            assert(a.len() == colon);
            assert(spec_digits_value(s@.subrange(start as int, n as int)) == code);
            assert(spec_is_srs_of(s@, sr));
        }
        Ok(sr)
    }
}

/// A spatial reference, or the statement that data is unreferenced.
#[derive(Clone, Copy, Debug, PartialEq, Eq, Structural, Hash)]
pub enum SpatialReferenceOption {
    SpatialReference(SpatialReference),
    Unreferenced,
}

impl SpatialReferenceOption {
    /// Wraps a reference.
    pub fn from_reference(s: SpatialReference) -> (r: SpatialReferenceOption)
        ensures
            r == SpatialReferenceOption::SpatialReference(s),
    {
        SpatialReferenceOption::SpatialReference(s)
    }

    /// Whether a reference is present.
    pub fn is_spatial_ref(&self) -> (r: bool)
        ensures
            r == (self is SpatialReference),
    {
        match self {
            SpatialReferenceOption::SpatialReference(_) => true,
            SpatialReferenceOption::Unreferenced => false,
        }
    }
}

/// Errors of spatial reference handling.
#[derive(Clone, Copy, Debug, PartialEq, Eq, Structural)]
pub enum SpatialReferenceError {
    /// No proj string is known for this reference.
    ProjStringUnresolvable,
    /// A string did not name a known authority and code.
    InvalidSpatialReferenceString,
}

} // verus!
