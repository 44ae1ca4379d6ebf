//! GoPro GPMF lens calibration (DVID / FOVL) extraction.
//!
//! Each lens field takes the first usable value that the clip's tag stream
//! holds for its FourCC; later values never replace it.
use vstd::prelude::*;

use crate::search::{
    first_some, lemma_first_some_concat, lemma_first_some_prefix, lemma_first_some_step,
};
use crate::tags::{
    group_descriptions, groups_descriptions, sample_descriptions, samples_descriptions, Input,
    Number, SampleInfo, Scalar, TagDescription, TagGroup, TagValue,
};
use crate::text::{
    chars_of, clean_strings, clean_terms, is_white_space, lemma_clean_terms_trimmed,
    lemma_trim_ends, split_clean, split_on, string_views, text_contains, trim, trim_text,
};

verus! {

/// The lens FourCCs that the extraction reads.
#[derive(Clone, Copy, Debug, PartialEq, Eq)]
pub enum LensKey {
    Vfov,
    Zfov,
    Absc,
    Zmpl,
    Aruw,
    Arwa,
    Pycf,
    Poly,
    Mxcf,
    Mapx,
    Mycf,
    Mapy,
    Dvid,
}

/// The four characters of a four-character description.
pub open spec fn fourcc_of(d: Seq<char>) -> Option<(char, char, char, char)> {
    if d.len() == 4 {
        Some((d[0], d[1], d[2], d[3]))
    } else {
        None
    }
}

/// Which lens field a tag description names, if any.
pub open spec fn lens_key(d: Seq<char>) -> Option<LensKey> {
    match fourcc_of(d) {
        Some(('V', 'F', 'O', 'V')) => Some(LensKey::Vfov),
        Some(('Z', 'F', 'O', 'V')) => Some(LensKey::Zfov),
        Some(('A', 'B', 'S', 'C')) => Some(LensKey::Absc),
        Some(('Z', 'M', 'P', 'L')) => Some(LensKey::Zmpl),
        Some(('A', 'R', 'U', 'W')) => Some(LensKey::Aruw),
        Some(('A', 'R', 'W', 'A')) => Some(LensKey::Arwa),
        Some(('P', 'Y', 'C', 'F')) => Some(LensKey::Pycf),
        Some(('P', 'O', 'L', 'Y')) => Some(LensKey::Poly),
        Some(('M', 'X', 'C', 'F')) => Some(LensKey::Mxcf),
        Some(('M', 'A', 'P', 'X')) => Some(LensKey::Mapx),
        Some(('M', 'Y', 'C', 'F')) => Some(LensKey::Mycf),
        Some(('M', 'A', 'P', 'Y')) => Some(LensKey::Mapy),
        Some(('D', 'V', 'I', 'D')) => Some(LensKey::Dvid),
        _ => None,
    }
}

/// Subset of DVID FOVL / lens FourCCs (ZFOV, VFOV, PYCF, POLY, ...).
///
/// Numeric fields hold the tag's number as stored (see [`Number`]).
#[derive(Clone, Debug, PartialEq)]
pub struct LensJson {
    pub vfov_mode: String,
    pub zfov_deg: Option<Number>,
    pub absc: Option<Number>,
    pub zmpl: Option<Number>,
    pub aruw: Option<Number>,
    pub arwa: Option<Number>,
    pub pycf_terms: Vec<String>,
    pub poly_coeffs: Vec<Number>,
    pub mxcf_terms: Vec<String>,
    pub mapx_coeffs: Vec<Number>,
    pub mycf_terms: Vec<String>,
    pub mapy_coeffs: Vec<Number>,
    pub dvid_primary: Option<String>,
}

/// The mathematical content of a [`LensJson`].
pub struct LensView {
    pub vfov_mode: Seq<char>,
    pub zfov_deg: Option<Number>,
    pub absc: Option<Number>,
    pub zmpl: Option<Number>,
    pub aruw: Option<Number>,
    pub arwa: Option<Number>,
    pub pycf_terms: Seq<Seq<char>>,
    pub poly_coeffs: Seq<Number>,
    pub mxcf_terms: Seq<Seq<char>>,
    pub mapx_coeffs: Seq<Number>,
    pub mycf_terms: Seq<Seq<char>>,
    pub mapy_coeffs: Seq<Number>,
    pub dvid_primary: Option<Seq<char>>,
}

pub open spec fn opt_string_view(s: Option<String>) -> Option<Seq<char>> {
    match s {
        Some(t) => Some(t@),
        None => None,
    }
}

impl View for LensJson {
    type V = LensView;

    open spec fn view(&self) -> LensView {
        LensView {
            vfov_mode: self.vfov_mode@,
            zfov_deg: self.zfov_deg,
            absc: self.absc,
            zmpl: self.zmpl,
            aruw: self.aruw,
            arwa: self.arwa,
            pycf_terms: string_views(self.pycf_terms@),
            poly_coeffs: self.poly_coeffs@,
            mxcf_terms: string_views(self.mxcf_terms@),
            mapx_coeffs: self.mapx_coeffs@,
            mycf_terms: string_views(self.mycf_terms@),
            mapy_coeffs: self.mapy_coeffs@,
            dvid_primary: opt_string_view(self.dvid_primary),
        }
    }
}

/// A lens record with no field set.
pub open spec fn empty_lens() -> LensView {
    LensView {
        vfov_mode: Seq::empty(),
        zfov_deg: None,
        absc: None,
        zmpl: None,
        aruw: None,
        arwa: None,
        pycf_terms: Seq::empty(),
        poly_coeffs: Seq::empty(),
        mxcf_terms: Seq::empty(),
        mapx_coeffs: Seq::empty(),
        mycf_terms: Seq::empty(),
        mapy_coeffs: Seq::empty(),
        dvid_primary: None,
    }
}

impl Default for LensJson {
    fn default() -> (r: LensJson)
        ensures
            r@ == empty_lens(),
    {
        let r = LensJson {
            vfov_mode: String::new(),
            zfov_deg: None,
            absc: None,
            zmpl: None,
            aruw: None,
            arwa: None,
            pycf_terms: Vec::new(),
            poly_coeffs: Vec::new(),
            mxcf_terms: Vec::new(),
            mapx_coeffs: Vec::new(),
            mycf_terms: Vec::new(),
            mapy_coeffs: Vec::new(),
            dvid_primary: None,
        };
        assert(string_views(r.pycf_terms@) =~= Seq::<Seq<char>>::empty());
        assert(string_views(r.mxcf_terms@) =~= Seq::<Seq<char>>::empty());
        assert(string_views(r.mycf_terms@) =~= Seq::<Seq<char>>::empty());
        r
    }
}

// ---------------------------------------------------------------------------
// Reading single tag values
// ---------------------------------------------------------------------------
/// The number an array element holds, if it is a number.
pub open spec fn scalar_number_spec(s: Scalar) -> Option<Number> {
    match s {
        Scalar::F32(v) => Some(Number::F32(v)),
        Scalar::F64(v) => Some(Number::F64(v)),
        Scalar::I8(v) => Some(Number::I8(v)),
        Scalar::U8(v) => Some(Number::U8(v)),
        Scalar::I16(v) => Some(Number::I16(v)),
        Scalar::U16(v) => Some(Number::U16(v)),
        Scalar::I32(v) => Some(Number::I32(v)),
        Scalar::U32(v) => Some(Number::U32(v)),
        Scalar::I64(v) => Some(Number::I64(v)),
        Scalar::U64(v) => Some(Number::U64(v)),
        Scalar::Other => None,
    }
}

/// The numbers of an array whose elements are all numbers; `None` as soon as one is not.
pub open spec fn all_numbers(ss: Seq<Scalar>) -> Option<Seq<Number>>
    decreases ss.len(),
{
    if ss.len() == 0 {
        Some(Seq::empty())
    } else {
        match (all_numbers(ss.drop_last()), scalar_number_spec(ss.last())) {
            (Some(v), Some(n)) => Some(v.push(n)),
            _ => None,
        }
    }
}

/// The number that a single-valued numeric tag holds.
pub open spec fn tag_number_spec(v: TagValue) -> Option<Number> {
    match v {
        TagValue::F32(x) => Some(Number::F32(x)),
        TagValue::F64(x) => Some(Number::F64(x)),
        TagValue::I8(x) => Some(Number::I8(x)),
        TagValue::U8(x) => Some(Number::U8(x)),
        TagValue::I16(x) => Some(Number::I16(x)),
        TagValue::U16(x) => Some(Number::U16(x)),
        TagValue::I32(x) => Some(Number::I32(x)),
        TagValue::U32(x) => Some(Number::U32(x)),
        TagValue::I64(x) => Some(Number::I64(x)),
        TagValue::U64(x) => Some(Number::U64(x)),
        _ => None,
    }
}

pub open spec fn f32_numbers(xs: Seq<u32>) -> Seq<Number> {
    xs.map_values(|x: u32| Number::F32(x))
}

pub open spec fn f64_numbers(xs: Seq<u64>) -> Seq<Number> {
    xs.map_values(|x: u64| Number::F64(x))
}

/// A row's elements when it is not empty.
pub open spec fn nonempty_row<T>(r: Vec<T>) -> Option<Seq<T>> {
    if r@.len() > 0 {
        Some(r@)
    } else {
        None
    }
}

/// The first non-empty row of a matrix.
pub open spec fn first_nonempty<T>(rows: Seq<Vec<T>>) -> Option<Seq<T>> {
    first_some(rows, |r: Vec<T>| nonempty_row(r))
}

/// The coefficient list that a tag holds: a single float, a float array, the
/// first non-empty row of a float matrix, or a scalar array (first non-empty
/// row of a scalar matrix) all of whose elements are numbers.
pub open spec fn tag_numbers_spec(v: TagValue) -> Option<Seq<Number>> {
    match v {
        TagValue::F32(x) => Some(seq![Number::F32(x)]),
        TagValue::F64(x) => Some(seq![Number::F64(x)]),
        TagValue::VecF32(xs) => Some(f32_numbers(xs@)),
        TagValue::VecF64(xs) => Some(f64_numbers(xs@)),
        TagValue::VecVecF32(rows) => match first_nonempty(rows@) {
            Some(r) => Some(f32_numbers(r)),
            None => None,
        },
        TagValue::VecVecF64(rows) => match first_nonempty(rows@) {
            Some(r) => Some(f64_numbers(r)),
            None => None,
        },
        TagValue::VecScalar(ss) => all_numbers(ss@),
        TagValue::VecVecScalar(rows) => match first_nonempty(rows@) {
            Some(r) => all_numbers(r),
            None => None,
        },
        _ => None,
    }
}

/// The trimmed text of a text tag, when that is not empty.
pub open spec fn tag_text_spec(v: TagValue) -> Option<Seq<char>> {
    match v {
        TagValue::Text(t) => if trim(t@).len() > 0 {
            Some(trim(t@))
        } else {
            None
        },
        _ => None,
    }
}

/// The list of terms a tag holds: the cleaned strings of a string array, or
/// the cleaned comma-separated pieces of a text (the whole trimmed text when
/// it has no comma); `None` when no term is left.
pub open spec fn tag_terms_spec(v: TagValue) -> Option<Seq<Seq<char>>> {
    match v {
        TagValue::VecText(ss) => {
            let c = clean_terms(string_views(ss@));
            if c.len() > 0 {
                Some(c)
            } else {
                None
            }
        },
        TagValue::Text(t) => {
            let s = trim(t@);
            if s.contains(',') {
                let c = clean_terms(split_on(s, ','));
                if c.len() > 0 {
                    Some(c)
                } else {
                    None
                }
            } else if s.len() == 0 {
                None
            } else {
                Some(seq![s])
            }
        },
        _ => None,
    }
}

// ---------------------------------------------------------------------------
// What the extraction computes
// ---------------------------------------------------------------------------
/// The text of a tag named `key`.
pub open spec fn pick_text(key: LensKey, d: TagDescription) -> Option<Seq<char>> {
    if lens_key(d.description@) == Some(key) {
        tag_text_spec(d.value)
    } else {
        None
    }
}

/// The number of a tag named `key`.
pub open spec fn pick_number(key: LensKey, d: TagDescription) -> Option<Number> {
    if lens_key(d.description@) == Some(key) {
        tag_number_spec(d.value)
    } else {
        None
    }
}

/// The non-empty term list of a tag named `key`.
pub open spec fn pick_terms(key: LensKey, d: TagDescription) -> Option<Seq<Seq<char>>> {
    if lens_key(d.description@) == Some(key) {
        match tag_terms_spec(d.value) {
            Some(t) => if t.len() > 0 {
                Some(t)
            } else {
                None
            },
            None => None,
        }
    } else {
        None
    }
}

/// The non-empty coefficient list of a tag named `key`.
pub open spec fn pick_numbers(key: LensKey, d: TagDescription) -> Option<Seq<Number>> {
    if lens_key(d.description@) == Some(key) {
        match tag_numbers_spec(d.value) {
            Some(t) => if t.len() > 0 {
                Some(t)
            } else {
                None
            },
            None => None,
        }
    } else {
        None
    }
}

/// The device id of a DVID tag, unless it is the placeholder "1".
pub open spec fn pick_dvid(d: TagDescription) -> Option<Seq<char>> {
    if lens_key(d.description@) == Some(LensKey::Dvid) {
        match tag_text_spec(d.value) {
            Some(s) => if s != seq!['1'] {
                Some(s)
            } else {
                None
            },
            None => None,
        }
    } else {
        None
    }
}

pub open spec fn seq_or_empty<T>(o: Option<Seq<T>>) -> Seq<T> {
    match o {
        Some(s) => s,
        None => Seq::empty(),
    }
}

/// The first text of a `key` tag along the stream.
pub open spec fn first_text(ds: Seq<TagDescription>, key: LensKey) -> Option<Seq<char>> {
    first_some(ds, |d: TagDescription| pick_text(key, d))
}

/// The first number of a `key` tag along the stream.
pub open spec fn first_number(ds: Seq<TagDescription>, key: LensKey) -> Option<Number> {
    first_some(ds, |d: TagDescription| pick_number(key, d))
}

/// The first non-empty term list of a `key` tag along the stream.
pub open spec fn first_terms(ds: Seq<TagDescription>, key: LensKey) -> Option<Seq<Seq<char>>> {
    first_some(ds, |d: TagDescription| pick_terms(key, d))
}

/// The first non-empty coefficient list of a `key` tag along the stream.
pub open spec fn first_numbers(ds: Seq<TagDescription>, key: LensKey) -> Option<Seq<Number>> {
    first_some(ds, |d: TagDescription| pick_numbers(key, d))
}

/// The first device id other than "1" along the stream.
pub open spec fn first_dvid(ds: Seq<TagDescription>) -> Option<Seq<char>> {
    first_some(ds, |d: TagDescription| pick_dvid(d))
}

/// The lens record of a tag stream: each field is the first usable value of
/// its FourCC along the stream.
pub open spec fn lens_of_tags(ds: Seq<TagDescription>) -> LensView {
    LensView {
        vfov_mode: seq_or_empty(first_text(ds, LensKey::Vfov)),
        zfov_deg: first_number(ds, LensKey::Zfov),
        absc: first_number(ds, LensKey::Absc),
        zmpl: first_number(ds, LensKey::Zmpl),
        aruw: first_number(ds, LensKey::Aruw),
        arwa: first_number(ds, LensKey::Arwa),
        pycf_terms: seq_or_empty(first_terms(ds, LensKey::Pycf)),
        poly_coeffs: seq_or_empty(first_numbers(ds, LensKey::Poly)),
        mxcf_terms: seq_or_empty(first_terms(ds, LensKey::Mxcf)),
        mapx_coeffs: seq_or_empty(first_numbers(ds, LensKey::Mapx)),
        mycf_terms: seq_or_empty(first_terms(ds, LensKey::Mycf)),
        mapy_coeffs: seq_or_empty(first_numbers(ds, LensKey::Mapy)),
        dvid_primary: first_dvid(ds),
    }
}

/// Whether any lens field is set.
pub open spec fn has_any(l: LensView) -> bool {
    ||| l.vfov_mode.len() > 0
    ||| l.zfov_deg is Some
    ||| l.absc is Some
    ||| l.zmpl is Some
    ||| l.aruw is Some
    ||| l.arwa is Some
    ||| l.pycf_terms.len() > 0
    ||| l.poly_coeffs.len() > 0
    ||| l.mxcf_terms.len() > 0
    ||| l.mapx_coeffs.len() > 0
    ||| l.mycf_terms.len() > 0
    ||| l.mapy_coeffs.len() > 0
    ||| l.dvid_primary is Some
}

/// What `extract_lens` returns for a clip.
pub open spec fn extract_lens_spec(input: Input) -> Option<LensView> {
    match input.samples {
        None => None,
        Some(samples) => {
            let l = lens_of_tags(samples_descriptions(samples@));
            if has_any(l) {
                Some(l)
            } else {
                None
            }
        },
    }
}


// ---------------------------------------------------------------------------
// One tag at a time
// ---------------------------------------------------------------------------
pub open spec fn set_opt<T>(cur: Option<T>, v: Option<T>) -> Option<T> {
    if cur is None {
        v
    } else {
        cur
    }
}

pub open spec fn set_seq<T>(cur: Seq<T>, v: Option<Seq<T>>) -> Seq<T> {
    if cur.len() == 0 {
        match v {
            Some(s) => s,
            None => cur,
        }
    } else {
        cur
    }
}

/// The lens record after reading one more tag.
pub open spec fn lens_step(l: LensView, d: TagDescription) -> LensView {
    LensView {
        vfov_mode: set_seq(l.vfov_mode, pick_text(LensKey::Vfov, d)),
        zfov_deg: set_opt(l.zfov_deg, pick_number(LensKey::Zfov, d)),
        absc: set_opt(l.absc, pick_number(LensKey::Absc, d)),
        zmpl: set_opt(l.zmpl, pick_number(LensKey::Zmpl, d)),
        aruw: set_opt(l.aruw, pick_number(LensKey::Aruw, d)),
        arwa: set_opt(l.arwa, pick_number(LensKey::Arwa, d)),
        pycf_terms: set_seq(l.pycf_terms, pick_terms(LensKey::Pycf, d)),
        poly_coeffs: set_seq(l.poly_coeffs, pick_numbers(LensKey::Poly, d)),
        mxcf_terms: set_seq(l.mxcf_terms, pick_terms(LensKey::Mxcf, d)),
        mapx_coeffs: set_seq(l.mapx_coeffs, pick_numbers(LensKey::Mapx, d)),
        mycf_terms: set_seq(l.mycf_terms, pick_terms(LensKey::Mycf, d)),
        mapy_coeffs: set_seq(l.mapy_coeffs, pick_numbers(LensKey::Mapy, d)),
        dvid_primary: set_opt(l.dvid_primary, pick_dvid(d)),
    }
}

proof fn lemma_first_some_nonempty<A, T>(s: Seq<A>, f: spec_fn(A) -> Option<Seq<T>>)
    requires
        forall|a: A| #[trigger] f(a) matches Some(x) ==> x.len() > 0,
    ensures
        first_some(s, f) matches Some(x) ==> x.len() > 0,
    decreases s.len(),
{
    if s.len() > 0 {
        lemma_first_some_nonempty(s.drop_last(), f);
    }
}

proof fn lemma_seq_field_step<A, T>(s: Seq<A>, d: A, f: spec_fn(A) -> Option<Seq<T>>)
    requires
        forall|a: A| #[trigger] f(a) matches Some(x) ==> x.len() > 0,
    ensures
        seq_or_empty(first_some(s.push(d), f)) == set_seq(seq_or_empty(first_some(s, f)), f(d)),
{
    lemma_first_some_nonempty(s, f);
    assert(s.push(d).drop_last() =~= s);
}

proof fn lemma_opt_field_step<A, T>(s: Seq<A>, d: A, f: spec_fn(A) -> Option<T>)
    ensures
        first_some(s.push(d), f) == set_opt(first_some(s, f), f(d)),
{
    assert(s.push(d).drop_last() =~= s);
}

/// Reading the stream one more tag extends the lens record by [`lens_step`].
pub proof fn lemma_lens_of_tags_step(ds: Seq<TagDescription>, d: TagDescription)
    ensures
        lens_of_tags(ds.push(d)) == lens_step(lens_of_tags(ds), d),
{
    lemma_seq_field_step(ds, d, |e: TagDescription| pick_text(LensKey::Vfov, e));
    lemma_seq_field_step(ds, d, |e: TagDescription| pick_terms(LensKey::Pycf, e));
    lemma_seq_field_step(ds, d, |e: TagDescription| pick_terms(LensKey::Mxcf, e));
    lemma_seq_field_step(ds, d, |e: TagDescription| pick_terms(LensKey::Mycf, e));
    lemma_seq_field_step(ds, d, |e: TagDescription| pick_numbers(LensKey::Poly, e));
    lemma_seq_field_step(ds, d, |e: TagDescription| pick_numbers(LensKey::Mapx, e));
    lemma_seq_field_step(ds, d, |e: TagDescription| pick_numbers(LensKey::Mapy, e));
    lemma_opt_field_step(ds, d, |e: TagDescription| pick_number(LensKey::Zfov, e));
    lemma_opt_field_step(ds, d, |e: TagDescription| pick_number(LensKey::Absc, e));
    lemma_opt_field_step(ds, d, |e: TagDescription| pick_number(LensKey::Zmpl, e));
    lemma_opt_field_step(ds, d, |e: TagDescription| pick_number(LensKey::Aruw, e));
    lemma_opt_field_step(ds, d, |e: TagDescription| pick_number(LensKey::Arwa, e));
    lemma_opt_field_step(ds, d, |e: TagDescription| pick_dvid(e));
}

/// Sets `dst` to `val` when `dst` is not set yet.
pub fn merge_opt<T: Clone>(dst: &mut Option<T>, val: Option<T>)
    ensures
        *final(dst) == set_opt(*old(dst), val),
{
    if dst.is_none() {
        *dst = val;
    }
}

/// Sets `dst` to `val` when `dst` is empty and `val` is not.
pub fn merge_vec<T: Clone>(dst: &mut Vec<T>, val: Vec<T>)
    ensures
        final(dst)@ == if old(dst)@.len() == 0 && val@.len() > 0 {
            val@
        } else {
            old(dst)@
        },
{
    if dst.len() == 0 && val.len() > 0 {
        *dst = val;
    }
}

/// Which lens field a tag description names, if any.
pub fn lens_key_of(d: &str) -> (r: Option<LensKey>)
    ensures
        r == lens_key(d@),
{
    let cs = chars_of(d);
    if cs.len() != 4 {
        return None;
    }
    match (cs[0], cs[1], cs[2], cs[3]) {
        ('V', 'F', 'O', 'V') => Some(LensKey::Vfov),
        ('Z', 'F', 'O', 'V') => Some(LensKey::Zfov),
        ('A', 'B', 'S', 'C') => Some(LensKey::Absc),
        ('Z', 'M', 'P', 'L') => Some(LensKey::Zmpl),
        ('A', 'R', 'U', 'W') => Some(LensKey::Aruw),
        ('A', 'R', 'W', 'A') => Some(LensKey::Arwa),
        ('P', 'Y', 'C', 'F') => Some(LensKey::Pycf),
        ('P', 'O', 'L', 'Y') => Some(LensKey::Poly),
        ('M', 'X', 'C', 'F') => Some(LensKey::Mxcf),
        ('M', 'A', 'P', 'X') => Some(LensKey::Mapx),
        ('M', 'Y', 'C', 'F') => Some(LensKey::Mycf),
        ('M', 'A', 'P', 'Y') => Some(LensKey::Mapy),
        ('D', 'V', 'I', 'D') => Some(LensKey::Dvid),
        _ => None,
    }
}

/// The number an array element holds, if it is a number.
pub fn scalar_number(s: &Scalar) -> (r: Option<Number>)
    ensures
        r == scalar_number_spec(*s),
{
    match s {
        Scalar::F32(v) => Some(Number::F32(*v)),
        Scalar::F64(v) => Some(Number::F64(*v)),
        Scalar::I8(v) => Some(Number::I8(*v)),
        Scalar::U8(v) => Some(Number::U8(*v)),
        Scalar::I16(v) => Some(Number::I16(*v)),
        Scalar::U16(v) => Some(Number::U16(*v)),
        Scalar::I32(v) => Some(Number::I32(*v)),
        Scalar::U32(v) => Some(Number::U32(*v)),
        Scalar::I64(v) => Some(Number::I64(*v)),
        Scalar::U64(v) => Some(Number::U64(*v)),
        _ => None,
    }
}

/// The number that a single-valued numeric tag holds.
pub fn tag_number(v: &TagValue) -> (r: Option<Number>)
    ensures
        r == tag_number_spec(*v),
{
    match v {
        TagValue::F32(t) => Some(Number::F32(*t)),
        TagValue::F64(t) => Some(Number::F64(*t)),
        TagValue::I8(t) => Some(Number::I8(*t)),
        TagValue::U8(t) => Some(Number::U8(*t)),
        TagValue::I16(t) => Some(Number::I16(*t)),
        TagValue::U16(t) => Some(Number::U16(*t)),
        TagValue::I32(t) => Some(Number::I32(*t)),
        TagValue::U32(t) => Some(Number::U32(*t)),
        TagValue::I64(t) => Some(Number::I64(*t)),
        TagValue::U64(t) => Some(Number::U64(*t)),
        _ => None,
    }
}

fn f32_list(xs: &Vec<u32>) -> (r: Vec<Number>)
    ensures
        r@ == f32_numbers(xs@),
{
    let mut out: Vec<Number> = Vec::new();
    let mut i: usize = 0;
    while i < xs.len()
        invariant
            i <= xs@.len(),
            out@ == f32_numbers(xs@.take(i as int)),
        decreases xs.len() - i,
    {
        out.push(Number::F32(xs[i]));
        assert(f32_numbers(xs@.take(i + 1)) =~= f32_numbers(xs@.take(i as int)).push(
            Number::F32(xs@[i as int]),
        ));
        i = i + 1;
    }
    assert(xs@.take(xs@.len() as int) =~= xs@);
    out
}

fn f64_list(xs: &Vec<u64>) -> (r: Vec<Number>)
    ensures
        r@ == f64_numbers(xs@),
{
    let mut out: Vec<Number> = Vec::new();
    let mut i: usize = 0;
    while i < xs.len()
        invariant
            i <= xs@.len(),
            out@ == f64_numbers(xs@.take(i as int)),
        decreases xs.len() - i,
    {
        out.push(Number::F64(xs[i]));
        assert(f64_numbers(xs@.take(i + 1)) =~= f64_numbers(xs@.take(i as int)).push(
            Number::F64(xs@[i as int]),
        ));
        i = i + 1;
    }
    assert(xs@.take(xs@.len() as int) =~= xs@);
    out
}

/// The numbers of an array when all its elements are numbers.
fn scalar_list(ss: &Vec<Scalar>) -> (r: Option<Vec<Number>>)
    ensures
        match r {
            Some(v) => all_numbers(ss@) == Some(v@),
            None => all_numbers(ss@) is None,
        },
{
    let mut out: Vec<Number> = Vec::new();
    let mut i: usize = 0;
    assert(ss@.take(0) =~= Seq::<Scalar>::empty());
    while i < ss.len()
        invariant
            i <= ss@.len(),
            all_numbers(ss@.take(i as int)) == Some(out@),
        decreases ss.len() - i,
    {
        assert(ss@.take(i + 1).drop_last() =~= ss@.take(i as int));
        match scalar_number(&ss[i]) {
            Some(n) => out.push(n),
            None => {
                proof {
                    lemma_all_numbers_none_prefix(ss@, i + 1);
                }
                return None;
            },
        }
        i = i + 1;
    }
    assert(ss@.take(ss@.len() as int) =~= ss@);
    Some(out)
}

proof fn lemma_all_numbers_none_prefix(ss: Seq<Scalar>, i: int)
    requires
        0 <= i <= ss.len(),
        all_numbers(ss.take(i)) is None,
    ensures
        all_numbers(ss) is None,
    decreases ss.len() - i,
{
    if i == ss.len() {
        assert(ss.take(i) =~= ss);
    } else {
        assert(ss.take(i + 1).drop_last() =~= ss.take(i));
        lemma_all_numbers_none_prefix(ss, i + 1);
    }
}

/// The index of the first non-empty row of a matrix.
fn first_nonempty_index<T>(rows: &Vec<Vec<T>>) -> (r: Option<usize>)
    ensures
        match r {
            Some(i) => i < rows@.len() && first_nonempty(rows@) == Some(rows@[i as int]@),
            None => first_nonempty(rows@) is None,
        },
{
    let ghost f = |r: Vec<T>| nonempty_row(r);
    let mut i: usize = 0;
    assert(rows@.take(0) =~= Seq::<Vec<T>>::empty());
    while i < rows.len()
        invariant
            i <= rows@.len(),
            f == (|r: Vec<T>| nonempty_row(r)),
            first_some(rows@.take(i as int), f) is None,
        decreases rows.len() - i,
    {
        proof {
            lemma_first_some_step(rows@, i as int, f);
        }
        if rows[i].len() > 0 {
            proof {
                lemma_first_some_prefix(rows@, i + 1, f);
            }
            return Some(i);
        }
        i = i + 1;
    }
    assert(rows@.take(rows@.len() as int) =~= rows@);
    None
}

pub open spec fn opt_numbers_view(o: Option<Vec<Number>>) -> Option<Seq<Number>> {
    match o {
        Some(v) => Some(v@),
        None => None,
    }
}

/// The coefficient list that a tag holds (see [`tag_numbers_spec`]).
pub fn tag_vec_number(v: &TagValue) -> (r: Option<Vec<Number>>)
    ensures
        opt_numbers_view(r) == tag_numbers_spec(*v),
{
    match v {
        TagValue::F32(t) => {
            let mut out: Vec<Number> = Vec::new();
            out.push(Number::F32(*t));
            assert(out@ =~= seq![Number::F32(*t)]);
            Some(out)
        },
        TagValue::F64(t) => {
            let mut out: Vec<Number> = Vec::new();
            out.push(Number::F64(*t));
            assert(out@ =~= seq![Number::F64(*t)]);
            Some(out)
        },
        TagValue::VecF32(t) => Some(f32_list(t)),
        TagValue::VecF64(t) => Some(f64_list(t)),
        TagValue::VecVecF32(t) => match first_nonempty_index(t) {
            Some(i) => Some(f32_list(&t[i])),
            None => None,
        },
        TagValue::VecVecF64(t) => match first_nonempty_index(t) {
            Some(i) => Some(f64_list(&t[i])),
            None => None,
        },
        TagValue::VecScalar(t) => scalar_list(t),
        TagValue::VecVecScalar(t) => match first_nonempty_index(t) {
            Some(i) => scalar_list(&t[i]),
            None => None,
        },
        _ => None,
    }
}

/// The trimmed text of a text tag, when that is not empty.
pub fn tag_string(v: &TagValue) -> (r: Option<String>)
    ensures
        opt_string_view(r) == tag_text_spec(*v),
{
    match v {
        TagValue::Text(t) => {
            let s = trim_text(t.as_str());
            if s.as_str().is_empty() {
                None
            } else {
                Some(s)
            }
        },
        _ => None,
    }
}

pub open spec fn opt_strings_view(o: Option<Vec<String>>) -> Option<Seq<Seq<char>>> {
    match o {
        Some(v) => Some(string_views(v@)),
        None => None,
    }
}

/// The list of terms a tag holds (see [`tag_terms_spec`]).
pub fn tag_vec_string(v: &TagValue) -> (r: Option<Vec<String>>)
    ensures
        opt_strings_view(r) == tag_terms_spec(*v),
{
    match v {
        TagValue::VecText(t) => {
            let c = clean_strings(t);
            if c.len() == 0 {
                None
            } else {
                Some(c)
            }
        },
        TagValue::Text(t) => {
            let s = trim_text(t.as_str());
            if text_contains(s.as_str(), ',') {
                let c = split_clean(s.as_str(), ',');
                if c.len() == 0 {
                    None
                } else {
                    Some(c)
                }
            } else if s.as_str().is_empty() {
                None
            } else {
                let mut one: Vec<String> = Vec::new();
                let ghost sv = s@;
                one.push(s);
                assert(string_views(one@) =~= seq![sv]);
                Some(one)
            }
        },
        _ => None,
    }
}

/// Whether a device id is the placeholder "1".
fn is_placeholder_id(s: &String) -> (r: bool)
    ensures
        r == (s@ == seq!['1']),
{
    let cs = chars_of(s.as_str());
    let r = cs.len() == 1 && cs[0] == '1';
    proof {
        if cs@.len() == 1 && cs@[0] == '1' {
            assert(s@ =~= seq!['1']);
        }
    }
    r
}

/// Applies one tag to the lens record.
fn apply_tag(lens: &mut LensJson, d: &TagDescription)
    ensures
        final(lens)@ == lens_step(old(lens)@, *d),
{
    match lens_key_of(d.description.as_str()) {
        Some(LensKey::Vfov) => {
            if lens.vfov_mode.as_str().is_empty() {
                if let Some(s) = tag_string(&d.value) {
                    lens.vfov_mode = s;
                }
            }
        },
        Some(LensKey::Zfov) => merge_opt(&mut lens.zfov_deg, tag_number(&d.value)),
        Some(LensKey::Absc) => merge_opt(&mut lens.absc, tag_number(&d.value)),
        Some(LensKey::Zmpl) => merge_opt(&mut lens.zmpl, tag_number(&d.value)),
        Some(LensKey::Aruw) => merge_opt(&mut lens.aruw, tag_number(&d.value)),
        Some(LensKey::Arwa) => merge_opt(&mut lens.arwa, tag_number(&d.value)),
        Some(LensKey::Pycf) => {
            if let Some(v) = tag_vec_string(&d.value) {
                merge_vec(&mut lens.pycf_terms, v);
            }
        },
        Some(LensKey::Poly) => {
            if let Some(v) = tag_vec_number(&d.value) {
                merge_vec(&mut lens.poly_coeffs, v);
            }
        },
        Some(LensKey::Mxcf) => {
            if let Some(v) = tag_vec_string(&d.value) {
                merge_vec(&mut lens.mxcf_terms, v);
            }
        },
        Some(LensKey::Mapx) => {
            if let Some(v) = tag_vec_number(&d.value) {
                merge_vec(&mut lens.mapx_coeffs, v);
            }
        },
        Some(LensKey::Mycf) => {
            if let Some(v) = tag_vec_string(&d.value) {
                merge_vec(&mut lens.mycf_terms, v);
            }
        },
        Some(LensKey::Mapy) => {
            if let Some(v) = tag_vec_number(&d.value) {
                merge_vec(&mut lens.mapy_coeffs, v);
            }
        },
        Some(LensKey::Dvid) => {
            if lens.dvid_primary.is_none() {
                if let Some(s) = tag_string(&d.value) {
                    if !is_placeholder_id(&s) {
                        lens.dvid_primary = Some(s);
                    }
                }
            }
        },
        None => {},
    }
}

pub open spec fn opt_lens_view(o: Option<LensJson>) -> Option<LensView> {
    match o {
        Some(l) => Some(l@),
        None => None,
    }
}

/// The lens calibration of a clip: for each lens FourCC the first usable
/// value along the clip's tags (see [`lens_of_tags`]); `None` when the clip
/// has no samples or no lens field is found.
pub fn extract_lens(input: &Input) -> (r: Option<LensJson>)
    ensures
        opt_lens_view(r) == extract_lens_spec(*input),
{
    let samples = match &input.samples {
        Some(s) => s,
        None => return None,
    };
    let mut lens = LensJson::default();
    let ghost mut seen: Seq<TagDescription> = Seq::empty();
    assert(samples@.take(0) =~= Seq::<SampleInfo>::empty());
    let mut i: usize = 0;
    while i < samples.len()
        invariant
            i <= samples@.len(),
            seen == samples_descriptions(samples@.take(i as int)),
            lens@ == lens_of_tags(seen),
        decreases samples.len() - i,
    {
        let info = &samples[i];
        let ghost before_sample = seen;
        if let Some(grouped) = &info.tag_map {
            let mut j: usize = 0;
            assert(grouped@.take(0) =~= Seq::<TagGroup>::empty());
            assert(before_sample + Seq::<TagDescription>::empty() =~= before_sample);
            while j < grouped.len()
                invariant
                    j <= grouped@.len(),
                    seen == before_sample + groups_descriptions(grouped@.take(j as int)),
                    lens@ == lens_of_tags(seen),
                decreases grouped.len() - j,
            {
                let tags = &grouped[j].tags;
                let ghost before_group = seen;
                let mut k: usize = 0;
                assert(group_descriptions(tags@.take(0)) =~= Seq::<TagDescription>::empty());
                assert(before_group + Seq::<TagDescription>::empty() =~= before_group);
                while k < tags.len()
                    invariant
                        k <= tags@.len(),
                        seen == before_group + group_descriptions(tags@.take(k as int)),
                        lens@ == lens_of_tags(seen),
                    decreases tags.len() - k,
                {
                    let d = &tags[k].1;
                    proof {
                        lemma_lens_of_tags_step(seen, *d);
                    }
                    apply_tag(&mut lens, d);
                    proof {
                        assert(group_descriptions(tags@.take(k + 1)) =~= group_descriptions(
                            tags@.take(k as int),
                        ).push(tags@[k as int].1));
                        assert(before_group + group_descriptions(tags@.take(k + 1))
                            =~= seen.push(*d));
                        seen = seen.push(*d);
                    }
                    k = k + 1;
                }
                proof {
                    assert(tags@.take(tags@.len() as int) =~= tags@);
                    assert(grouped@.take(j + 1).drop_last() =~= grouped@.take(j as int));
                    assert(groups_descriptions(grouped@.take(j + 1)) == groups_descriptions(
                        grouped@.take(j as int),
                    ) + group_descriptions(grouped@[j as int].tags@));
                    assert(before_sample + groups_descriptions(grouped@.take(j + 1)) =~= seen);
                }
                j = j + 1;
            }
            proof {
                assert(grouped@.take(grouped@.len() as int) =~= grouped@);
            }
        } else {
            assert(before_sample + sample_descriptions(*info) =~= before_sample);
        }
        proof {
            assert(samples@.take(i + 1).drop_last() =~= samples@.take(i as int));
            assert(samples_descriptions(samples@.take(i + 1)) == samples_descriptions(
                samples@.take(i as int),
            ) + sample_descriptions(samples@[i as int]));
        }
        i = i + 1;
    }
    assert(samples@.take(samples@.len() as int) =~= samples@);
    let has_any = !lens.vfov_mode.as_str().is_empty() || lens.zfov_deg.is_some()
        || lens.absc.is_some() || lens.zmpl.is_some() || lens.aruw.is_some()
        || lens.arwa.is_some() || lens.pycf_terms.len() > 0 || lens.poly_coeffs.len() > 0
        || lens.mxcf_terms.len() > 0 || lens.mapx_coeffs.len() > 0
        || lens.mycf_terms.len() > 0 || lens.mapy_coeffs.len() > 0
        || lens.dvid_primary.is_some();
    if has_any {
        Some(lens)
    } else {
        None
    }
}

// ---------------------------------------------------------------------------
// Laws
// ---------------------------------------------------------------------------
proof fn lemma_set_field_stable<T>(ds: Seq<TagDescription>, extra: Seq<TagDescription>, f: spec_fn(TagDescription) -> Option<T>)
    ensures
        first_some(ds, f) is Some ==> first_some(ds + extra, f) == first_some(ds, f),
{
    lemma_first_some_concat(ds, extra, f);
}

/// Once a lens field is set by a prefix of the tag stream, no later tag
/// changes it: the first usable value of each FourCC wins.
pub proof fn law_lens_first_value_wins(ds: Seq<TagDescription>, extra: Seq<TagDescription>)
    ensures
        ({
            let a = lens_of_tags(ds);
            let b = lens_of_tags(ds + extra);
            &&& a.vfov_mode.len() > 0 ==> b.vfov_mode == a.vfov_mode
            &&& a.zfov_deg is Some ==> b.zfov_deg == a.zfov_deg
            &&& a.absc is Some ==> b.absc == a.absc
            &&& a.zmpl is Some ==> b.zmpl == a.zmpl
            &&& a.aruw is Some ==> b.aruw == a.aruw
            &&& a.arwa is Some ==> b.arwa == a.arwa
            &&& a.pycf_terms.len() > 0 ==> b.pycf_terms == a.pycf_terms
            &&& a.poly_coeffs.len() > 0 ==> b.poly_coeffs == a.poly_coeffs
            &&& a.mxcf_terms.len() > 0 ==> b.mxcf_terms == a.mxcf_terms
            &&& a.mapx_coeffs.len() > 0 ==> b.mapx_coeffs == a.mapx_coeffs
            &&& a.mycf_terms.len() > 0 ==> b.mycf_terms == a.mycf_terms
            &&& a.mapy_coeffs.len() > 0 ==> b.mapy_coeffs == a.mapy_coeffs
            &&& a.dvid_primary is Some ==> b.dvid_primary == a.dvid_primary
        }),
{
    lemma_set_field_stable(ds, extra, |d: TagDescription| pick_text(LensKey::Vfov, d));
    lemma_set_field_stable(ds, extra, |d: TagDescription| pick_number(LensKey::Zfov, d));
    lemma_set_field_stable(ds, extra, |d: TagDescription| pick_number(LensKey::Absc, d));
    lemma_set_field_stable(ds, extra, |d: TagDescription| pick_number(LensKey::Zmpl, d));
    lemma_set_field_stable(ds, extra, |d: TagDescription| pick_number(LensKey::Aruw, d));
    lemma_set_field_stable(ds, extra, |d: TagDescription| pick_number(LensKey::Arwa, d));
    lemma_set_field_stable(ds, extra, |d: TagDescription| pick_terms(LensKey::Pycf, d));
    lemma_set_field_stable(ds, extra, |d: TagDescription| pick_numbers(LensKey::Poly, d));
    lemma_set_field_stable(ds, extra, |d: TagDescription| pick_terms(LensKey::Mxcf, d));
    lemma_set_field_stable(ds, extra, |d: TagDescription| pick_numbers(LensKey::Mapx, d));
    lemma_set_field_stable(ds, extra, |d: TagDescription| pick_terms(LensKey::Mycf, d));
    lemma_set_field_stable(ds, extra, |d: TagDescription| pick_numbers(LensKey::Mapy, d));
    lemma_set_field_stable(ds, extra, |d: TagDescription| pick_dvid(d));
}

/// A non-empty text with no white space at either end.
pub open spec fn clean_text(t: Seq<char>) -> bool {
    &&& t.len() > 0
    &&& !is_white_space(t[0])
    &&& !is_white_space(t.last())
}

proof fn lemma_tag_text_clean(v: TagValue)
    ensures
        tag_text_spec(v) matches Some(t) ==> clean_text(t),
{
    if let TagValue::Text(s) = v {
        lemma_trim_ends(s@);
    }
}

proof fn lemma_tag_terms_clean(v: TagValue)
    ensures
        tag_terms_spec(v) matches Some(ts) ==> forall|i: int|
            0 <= i < ts.len() ==> clean_text(#[trigger] ts[i]),
{
    match v {
        TagValue::VecText(ss) => {
            lemma_clean_terms_trimmed(string_views(ss@));
        },
        TagValue::Text(t) => {
            let s = trim(t@);
            lemma_clean_terms_trimmed(split_on(s, ','));
            lemma_trim_ends(t@);
        },
        _ => {},
    }
}

/// Every text that the lens record holds is non-empty and has no white
/// space at either end, and the device id is never the placeholder "1".
pub proof fn law_lens_text_is_clean(ds: Seq<TagDescription>)
    ensures
        ({
            let l = lens_of_tags(ds);
            &&& l.vfov_mode.len() > 0 ==> clean_text(l.vfov_mode)
            &&& forall|i: int| 0 <= i < l.pycf_terms.len() ==> clean_text(#[trigger] l.pycf_terms[i])
            &&& forall|i: int| 0 <= i < l.mxcf_terms.len() ==> clean_text(#[trigger] l.mxcf_terms[i])
            &&& forall|i: int| 0 <= i < l.mycf_terms.len() ==> clean_text(#[trigger] l.mycf_terms[i])
            &&& l.dvid_primary matches Some(id) ==> clean_text(id) && id != seq!['1']
        }),
    decreases ds.len(),
{
    if ds.len() > 0 {
        let d = ds.last();
        law_lens_text_is_clean(ds.drop_last());
        assert(ds.drop_last().push(d) =~= ds);
        lemma_lens_of_tags_step(ds.drop_last(), d);
        lemma_tag_text_clean(d.value);
        lemma_tag_terms_clean(d.value);
    }
}


proof fn lemma_fourcc(d: Seq<char>, a: char, b: char, c: char, e: char)
    ensures
        fourcc_of(d) == Some((a, b, c, e)) <==> d == seq![a, b, c, e],
{
    if d == seq![a, b, c, e] {
        assert(d.len() == 4);
    }
    if fourcc_of(d) == Some((a, b, c, e)) {
        assert(d =~= seq![a, b, c, e]);
    }
}

/// Each lens field is named by its own FourCC and by nothing else: a tag
/// description selects a field exactly when it is that field's four characters.
pub proof fn law_lens_key_names(d: Seq<char>)
    ensures
        lens_key(d) == Some(LensKey::Vfov) <==> d == seq!['V', 'F', 'O', 'V'],
        lens_key(d) == Some(LensKey::Zfov) <==> d == seq!['Z', 'F', 'O', 'V'],
        lens_key(d) == Some(LensKey::Absc) <==> d == seq!['A', 'B', 'S', 'C'],
        lens_key(d) == Some(LensKey::Zmpl) <==> d == seq!['Z', 'M', 'P', 'L'],
        lens_key(d) == Some(LensKey::Aruw) <==> d == seq!['A', 'R', 'U', 'W'],
        lens_key(d) == Some(LensKey::Arwa) <==> d == seq!['A', 'R', 'W', 'A'],
        lens_key(d) == Some(LensKey::Pycf) <==> d == seq!['P', 'Y', 'C', 'F'],
        lens_key(d) == Some(LensKey::Poly) <==> d == seq!['P', 'O', 'L', 'Y'],
        lens_key(d) == Some(LensKey::Mxcf) <==> d == seq!['M', 'X', 'C', 'F'],
        lens_key(d) == Some(LensKey::Mapx) <==> d == seq!['M', 'A', 'P', 'X'],
        lens_key(d) == Some(LensKey::Mycf) <==> d == seq!['M', 'Y', 'C', 'F'],
        lens_key(d) == Some(LensKey::Mapy) <==> d == seq!['M', 'A', 'P', 'Y'],
        lens_key(d) == Some(LensKey::Dvid) <==> d == seq!['D', 'V', 'I', 'D'],
        d.len() != 4 ==> lens_key(d) is None,
{
    lemma_fourcc(d, 'V', 'F', 'O', 'V');
    lemma_fourcc(d, 'Z', 'F', 'O', 'V');
    lemma_fourcc(d, 'A', 'B', 'S', 'C');
    lemma_fourcc(d, 'Z', 'M', 'P', 'L');
    lemma_fourcc(d, 'A', 'R', 'U', 'W');
    lemma_fourcc(d, 'A', 'R', 'W', 'A');
    lemma_fourcc(d, 'P', 'Y', 'C', 'F');
    lemma_fourcc(d, 'P', 'O', 'L', 'Y');
    lemma_fourcc(d, 'M', 'X', 'C', 'F');
    lemma_fourcc(d, 'M', 'A', 'P', 'X');
    lemma_fourcc(d, 'M', 'Y', 'C', 'F');
    lemma_fourcc(d, 'M', 'A', 'P', 'Y');
    lemma_fourcc(d, 'D', 'V', 'I', 'D');
}

/// A single-valued numeric tag yields its own number, of its own kind;
/// every other kind of value yields none.
pub proof fn law_tag_number_values(v: TagValue)
    ensures
        forall|x: u32| tag_number_spec(TagValue::F32(x)) == Some(Number::F32(x)),
        forall|x: u64| tag_number_spec(TagValue::F64(x)) == Some(Number::F64(x)),
        forall|x: i8| tag_number_spec(TagValue::I8(x)) == Some(Number::I8(x)),
        forall|x: u8| tag_number_spec(TagValue::U8(x)) == Some(Number::U8(x)),
        forall|x: i16| tag_number_spec(TagValue::I16(x)) == Some(Number::I16(x)),
        forall|x: u16| tag_number_spec(TagValue::U16(x)) == Some(Number::U16(x)),
        forall|x: i32| tag_number_spec(TagValue::I32(x)) == Some(Number::I32(x)),
        forall|x: u32| tag_number_spec(TagValue::U32(x)) == Some(Number::U32(x)),
        forall|x: i64| tag_number_spec(TagValue::I64(x)) == Some(Number::I64(x)),
        forall|x: u64| tag_number_spec(TagValue::U64(x)) == Some(Number::U64(x)),
        tag_number_spec(v) is None <==> !(v is F32 || v is F64 || v is I8 || v is U8 || v is I16
            || v is U16 || v is I32 || v is U32 || v is I64 || v is U64),
{
}

proof fn lemma_first_row<T>(rows: Seq<Vec<T>>, i: int)
    requires
        0 <= i <= rows.len(),
        forall|k: int| 0 <= k < i ==> (#[trigger] rows[k])@.len() == 0,
    ensures
        first_some(rows.take(i), |r: Vec<T>| nonempty_row(r)) is None,
    decreases i,
{
    if i > 0 {
        lemma_first_row(rows, i - 1);
        lemma_first_some_step(rows, i - 1, |r: Vec<T>| nonempty_row(r));
    } else {
        assert(rows.take(0) =~= Seq::<Vec<T>>::empty());
    }
}

/// The first non-empty row of a matrix is the row at index `i` exactly when
/// row `i` is non-empty and every row before it is empty; a matrix of empty
/// rows has none.
pub proof fn law_first_nonempty_row<T>(rows: Seq<Vec<T>>, i: int)
    ensures
        0 <= i < rows.len() && rows[i]@.len() > 0 && (forall|k: int|
            0 <= k < i ==> (#[trigger] rows[k])@.len() == 0) ==> first_nonempty(rows) == Some(
            rows[i]@,
        ),
        (forall|k: int| 0 <= k < rows.len() ==> (#[trigger] rows[k])@.len() == 0) ==> first_nonempty(
            rows,
        ) is None,
{
    let f = |r: Vec<T>| nonempty_row(r);
    if 0 <= i < rows.len() && rows[i]@.len() > 0 && (forall|k: int|
        0 <= k < i ==> (#[trigger] rows[k])@.len() == 0) {
        lemma_first_row(rows, i);
        lemma_first_some_step(rows, i, f);
        lemma_first_some_prefix(rows, i + 1, f);
    }
    if forall|k: int| 0 <= k < rows.len() ==> (#[trigger] rows[k])@.len() == 0 {
        lemma_first_row(rows, rows.len() as int);
        assert(rows.take(rows.len() as int) =~= rows);
    }
}

/// Float coefficient lists are read element by element: a single float is a
/// one-element list, a float array is the list of its elements, and a float
/// matrix gives the elements of its first non-empty row (`None` when every
/// row is empty). Each element keeps its bits and its width.
pub proof fn law_float_coefficients(
    x32: u32,
    x64: u64,
    xs32: Vec<u32>,
    xs64: Vec<u64>,
    rows32: Vec<Vec<u32>>,
    rows64: Vec<Vec<u64>>,
    i: int,
)
    ensures
        tag_numbers_spec(TagValue::F32(x32)) == Some(seq![Number::F32(x32)]),
        tag_numbers_spec(TagValue::F64(x64)) == Some(seq![Number::F64(x64)]),
        tag_numbers_spec(TagValue::VecF32(xs32)) matches Some(v) && v.len() == xs32@.len() && (
        forall|j: int| 0 <= j < v.len() ==> #[trigger] v[j] == Number::F32(xs32@[j])),
        tag_numbers_spec(TagValue::VecF64(xs64)) matches Some(v) && v.len() == xs64@.len() && (
        forall|j: int| 0 <= j < v.len() ==> #[trigger] v[j] == Number::F64(xs64@[j])),
        0 <= i < rows32@.len() && rows32@[i]@.len() > 0 && (forall|k: int|
            0 <= k < i ==> (#[trigger] rows32@[k])@.len() == 0) ==> (tag_numbers_spec(
            TagValue::VecVecF32(rows32),
        ) matches Some(v) && v.len() == rows32@[i]@.len() && (forall|j: int|
            0 <= j < v.len() ==> #[trigger] v[j] == Number::F32(rows32@[i]@[j]))),
        0 <= i < rows64@.len() && rows64@[i]@.len() > 0 && (forall|k: int|
            0 <= k < i ==> (#[trigger] rows64@[k])@.len() == 0) ==> (tag_numbers_spec(
            TagValue::VecVecF64(rows64),
        ) matches Some(v) && v.len() == rows64@[i]@.len() && (forall|j: int|
            0 <= j < v.len() ==> #[trigger] v[j] == Number::F64(rows64@[i]@[j]))),
        (forall|k: int| 0 <= k < rows32@.len() ==> (#[trigger] rows32@[k])@.len() == 0)
            ==> tag_numbers_spec(TagValue::VecVecF32(rows32)) is None,
        (forall|k: int| 0 <= k < rows64@.len() ==> (#[trigger] rows64@[k])@.len() == 0)
            ==> tag_numbers_spec(TagValue::VecVecF64(rows64)) is None,
{
    law_first_nonempty_row(rows32@, i);
    law_first_nonempty_row(rows64@, i);
}

/// A clip of a single tag sets at most the field its FourCC names: a numeric
/// ZFOV/ABSC/ZMPL/ARUW/ARWA tag sets exactly that field to its number, and
/// leaves the other numeric fields unset.
pub proof fn law_single_numeric_tag(d: TagDescription)
    ensures
        ({
            let l = lens_of_tags(seq![d]);
            let n = tag_number_spec(d.value);
            &&& l.zfov_deg == if d.description@ == seq!['Z', 'F', 'O', 'V'] { n } else { None }
            &&& l.absc == if d.description@ == seq!['A', 'B', 'S', 'C'] { n } else { None }
            &&& l.zmpl == if d.description@ == seq!['Z', 'M', 'P', 'L'] { n } else { None }
            &&& l.aruw == if d.description@ == seq!['A', 'R', 'U', 'W'] { n } else { None }
            &&& l.arwa == if d.description@ == seq!['A', 'R', 'W', 'A'] { n } else { None }
        }),
{
    law_lens_key_names(d.description@);
    lemma_lens_of_tags_step(Seq::empty(), d);
    assert(Seq::<TagDescription>::empty().push(d) =~= seq![d]);
}

/// A clip yields no lens exactly when it has no samples or none of its tags
/// sets any lens field; otherwise it yields the lens record of its tags.
pub proof fn law_no_lens_means_nothing_found(input: Input)
    ensures
        extract_lens_spec(input) is None <==> (input.samples is None || lens_of_tags(
            samples_descriptions(input.samples->0@),
        ) == empty_lens()),
        extract_lens_spec(input) matches Some(l) ==> l == lens_of_tags(
            samples_descriptions(input.samples->0@),
        ),
{
    if let Some(ss) = input.samples {
        let l = lens_of_tags(samples_descriptions(ss@));
        if !has_any(l) {
            assert(l.vfov_mode =~= Seq::<char>::empty());
            assert(l.pycf_terms =~= Seq::<Seq<char>>::empty());
            assert(l.poly_coeffs =~= Seq::<Number>::empty());
            assert(l.mxcf_terms =~= Seq::<Seq<char>>::empty());
            assert(l.mapx_coeffs =~= Seq::<Number>::empty());
            assert(l.mycf_terms =~= Seq::<Seq<char>>::empty());
            assert(l.mapy_coeffs =~= Seq::<Number>::empty());
        }
    }
}

/// Every array element that is a number yields that number, of its own kind;
/// the one element kind that is not a number yields none.
pub proof fn law_scalar_number_values(s: Scalar)
    ensures
        forall|x: u32| scalar_number_spec(Scalar::F32(x)) == Some(Number::F32(x)),
        forall|x: u64| scalar_number_spec(Scalar::F64(x)) == Some(Number::F64(x)),
        forall|x: i8| scalar_number_spec(Scalar::I8(x)) == Some(Number::I8(x)),
        forall|x: u8| scalar_number_spec(Scalar::U8(x)) == Some(Number::U8(x)),
        forall|x: i16| scalar_number_spec(Scalar::I16(x)) == Some(Number::I16(x)),
        forall|x: u16| scalar_number_spec(Scalar::U16(x)) == Some(Number::U16(x)),
        forall|x: i32| scalar_number_spec(Scalar::I32(x)) == Some(Number::I32(x)),
        forall|x: u32| scalar_number_spec(Scalar::U32(x)) == Some(Number::U32(x)),
        forall|x: i64| scalar_number_spec(Scalar::I64(x)) == Some(Number::I64(x)),
        forall|x: u64| scalar_number_spec(Scalar::U64(x)) == Some(Number::U64(x)),
        scalar_number_spec(s) is None <==> s is Other,
{
}

/// A scalar array yields a list exactly when every element is a number; the
/// list then has one number per element, in order.
pub proof fn law_scalar_array_numbers(ss: Seq<Scalar>)
    ensures
        all_numbers(ss) is None <==> exists|i: int| 0 <= i < ss.len() && (#[trigger] ss[i]) is Other,
        all_numbers(ss) matches Some(v) ==> v.len() == ss.len() && forall|i: int|
            0 <= i < ss.len() ==> scalar_number_spec(#[trigger] ss[i]) == Some(v[i]),
    decreases ss.len(),
{
    if ss.len() > 0 {
        let pre = ss.drop_last();
        law_scalar_array_numbers(pre);
        if exists|i: int| 0 <= i < pre.len() && (#[trigger] pre[i]) is Other {
            let i = choose|i: int| 0 <= i < pre.len() && (#[trigger] pre[i]) is Other;
            assert(ss[i] == pre[i]);
        }
        if exists|i: int| 0 <= i < ss.len() && (#[trigger] ss[i]) is Other {
            let i = choose|i: int| 0 <= i < ss.len() && (#[trigger] ss[i]) is Other;
            if i < ss.len() - 1 {
                assert(pre[i] == ss[i]);
            }
        }
        if let Some(v) = all_numbers(ss) {
            assert forall|i: int| 0 <= i < ss.len() implies scalar_number_spec(#[trigger] ss[i])
                == Some(v[i]) by {
                if i < ss.len() - 1 {
                    assert(pre[i] == ss[i]);
                }
            }
        }
    }
}

} // verus!
