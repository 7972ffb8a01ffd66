//! Datapoint State: one mutable record per schema entry, holding the last
//! decoded value or the last error, and the timestamp of the last update
//! attempt.

use vstd::prelude::*;

verus! {

use crate::clock::now_millis;
use vstd::multiset::Multiset;

/// A decoded engineering value: a closed tagged union over the six declared
/// types. A float is carried as its IEEE-754 single-precision bit pattern;
/// turning the pattern into a floating-point number is the presentation
/// layer's business.
#[derive(Debug, Clone, Copy, PartialEq, Eq, Structural)]
pub enum DataValue {
    U16(u16),
    I16(i16),
    U32(u32),
    I32(i32),
    F32(u32),
    Bitfield(u16),
}

impl DataValue {
    /// Short type tag shown beside the value.
    pub fn type_label(&self) -> (r: &'static str)
        ensures
            r@ == self.type_label_spec(),
    {
        match self {
            DataValue::U16(_) => "u16",
            DataValue::I16(_) => "i16",
            DataValue::U32(_) => "u32",
            DataValue::I32(_) => "i32",
            DataValue::F32(_) => "f32",
            DataValue::Bitfield(_) => "bits",
        }
    }

    pub open spec fn type_label_spec(self) -> Seq<char> {
        match self {
            DataValue::U16(_) => "u16"@,
            DataValue::I16(_) => "i16"@,
            DataValue::U32(_) => "u32"@,
            DataValue::I32(_) => "i32"@,
            DataValue::F32(_) => "f32"@,
            DataValue::Bitfield(_) => "bits"@,
        }
    }
}

/// The error taxonomy: which way an update attempt failed.
#[derive(Debug, Clone, Copy, PartialEq, Eq, Structural)]
pub enum ErrorKind {
    /// Could not establish a session; applied cycle-wide to every datapoint.
    ConnectionFailed,
    /// Bounded wait exceeded while connecting; applied cycle-wide.
    ConnectionTimeout,
    /// The remote endpoint answered one read with a well-formed error.
    ProtocolException,
    /// Lower-level communication failure on one read.
    ReadError,
    /// Bounded wait exceeded on one read.
    ReadTimeout,
}

impl ErrorKind {
    /// Short status text shown in the datapoint table.
    pub fn label(&self) -> (r: &'static str)
        ensures
            r@ == self.label_spec(),
    {
        match self {
            ErrorKind::ConnectionFailed => "CONN FAIL",
            ErrorKind::ConnectionTimeout => "TIMEOUT",
            ErrorKind::ProtocolException => "MODBUS ERR",
            ErrorKind::ReadError => "READ ERR",
            ErrorKind::ReadTimeout => "READ TMO",
        }
    }

    pub open spec fn label_spec(self) -> Seq<char> {
        match self {
            ErrorKind::ConnectionFailed => "CONN FAIL"@,
            ErrorKind::ConnectionTimeout => "TIMEOUT"@,
            ErrorKind::ProtocolException => "MODBUS ERR"@,
            ErrorKind::ReadError => "READ ERR"@,
            ErrorKind::ReadTimeout => "READ TMO"@,
        }
    }
}

/// One recorded failure: its class and the free detail text that came with
/// it.
#[derive(Debug, Clone)]
pub struct ScanError {
    pub kind: ErrorKind,
    pub detail: String,
}

/// Mathematical content of a [`ScanError`].
#[verifier::ext_equal]
pub ghost struct ScanErrorView {
    pub kind: ErrorKind,
    pub detail: Seq<char>,
}

impl View for ScanError {
    type V = ScanErrorView;

    open spec fn view(&self) -> ScanErrorView {
        ScanErrorView { kind: self.kind, detail: self.detail@ }
    }
}

impl ScanError {
    pub fn new(kind: ErrorKind, detail: String) -> (r: ScanError)
        ensures
            r@ == (ScanErrorView { kind, detail: detail@ }),
    {
        ScanError { kind, detail }
    }

    /// An exact copy.
    pub fn duplicate(&self) -> (r: ScanError)
        ensures
            r@ == self@,
    {
        ScanError { kind: self.kind, detail: self.detail.clone() }
    }
}

/// One datapoint's mutable record. Name and address are copied from the
/// schema at construction and never change afterwards; value, error and
/// timestamp are mutated exclusively by the scan engine.
#[derive(Debug, Clone)]
pub struct Datapoint {
    pub name: String,
    pub address: u16,
    pub value: Option<DataValue>,
    pub last_updated: Option<i64>,
    pub error: Option<ScanError>,
    pub description: Option<String>,
    pub bitfield_names: Option<Vec<(u8, String)>>,
}

/// Mathematical content of a bit-name table.
pub open spec fn bit_names_view(bs: Seq<(u8, String)>) -> Seq<(u8, Seq<char>)> {
    bs.map_values(|p: (u8, String)| (p.0, p.1@))
}

/// Mathematical content of a [`Datapoint`].
#[verifier::ext_equal]
pub ghost struct DatapointView {
    pub name: Seq<char>,
    pub address: u16,
    pub value: Option<DataValue>,
    pub last_updated: Option<i64>,
    pub error: Option<ScanErrorView>,
    pub description: Option<Seq<char>>,
    pub bitfield_names: Option<Seq<(u8, Seq<char>)>>,
}

impl View for Datapoint {
    type V = DatapointView;

    open spec fn view(&self) -> DatapointView {
        DatapointView {
            name: self.name@,
            address: self.address,
            value: self.value,
            last_updated: self.last_updated,
            error: match self.error {
                Some(e) => Some(e@),
                None => None,
            },
            description: match self.description {
                Some(d) => Some(d@),
                None => None,
            },
            bitfield_names: match self.bitfield_names {
                Some(bs) => Some(bit_names_view(bs@)),
                None => None,
            },
        }
    }
}

impl DatapointView {
    /// Every declared bit index addresses a bit of a 16-bit word.
    pub open spec fn bits_wf(self) -> bool {
        self.bitfield_names matches Some(bs) ==> forall|i: int|
            0 <= i < bs.len() ==> (#[trigger] bs[i]).0 < 16
    }

    /// The record after a successful decode at clock reading `now`: the new
    /// value is stored, the error is cleared, the timestamp advances.
    pub open spec fn with_value(self, v: DataValue, now: i64) -> DatapointView {
        DatapointView { value: Some(v), last_updated: Some(now), error: None, ..self }
    }

    /// The record after a failed update attempt at clock reading `now`: the
    /// error is stored, the timestamp advances, the old value (possibly now
    /// stale) is kept.
    pub open spec fn with_error(self, e: ScanErrorView, now: i64) -> DatapointView {
        DatapointView { error: Some(e), last_updated: Some(now), ..self }
    }

    /// Either possible outcome of one update attempt at clock reading `now`.
    pub open spec fn is_update_at(self, post: DatapointView, now: i64) -> bool {
        ||| exists|v: DataValue| post == self.with_value(v, now)
        ||| exists|e: ScanErrorView| post == self.with_error(e, now)
    }
}

impl Datapoint {
    pub fn new(name: String, address: u16, description: Option<String>) -> (r: Datapoint)
        ensures
            r@.name == name@,
            r@.address == address,
            r@.value is None,
            r@.last_updated is None,
            r@.error is None,
            r@.description == (match description {
                Some(d) => Some(d@),
                None => None::<Seq<char>>,
            }),
            r@.bitfield_names is None,
    {
        Datapoint {
            name,
            address,
            value: None,
            last_updated: None,
            error: None,
            description,
            bitfield_names: None,
        }
    }

    pub fn with_bitfields(
        name: String,
        address: u16,
        description: Option<String>,
        bitfield_names: Vec<(u8, String)>,
    ) -> (r: Datapoint)
        ensures
            r@.name == name@,
            r@.address == address,
            r@.value is None,
            r@.last_updated is None,
            r@.error is None,
            r@.description == (match description {
                Some(d) => Some(d@),
                None => None::<Seq<char>>,
            }),
            r@.bitfield_names == Some(bit_names_view(bitfield_names@)),
    {
        Datapoint {
            name,
            address,
            value: None,
            last_updated: None,
            error: None,
            description,
            bitfield_names: Some(bitfield_names),
        }
    }

    /// Store a decoded value at an explicit clock reading.
    pub fn update_value_at(&mut self, value: DataValue, now: i64)
        ensures
            final(self)@ == old(self)@.with_value(value, now),
    {
        self.value = Some(value);
        self.last_updated = Some(now);
        self.error = None;
        proof {
            assert(self@ =~= old(self)@.with_value(value, now));
        }
    }

    /// Record a failure at an explicit clock reading.
    pub fn update_error_at(&mut self, error: ScanError, now: i64)
        ensures
            final(self)@ == old(self)@.with_error(error@, now),
    {
        let ghost e = error@;
        self.error = Some(error);
        self.last_updated = Some(now);
        proof {
            assert(self@ =~= old(self)@.with_error(e, now));
        }
    }

    /// Store a decoded value, stamped with the clock as it reads now.
    pub fn update_value(&mut self, value: DataValue)
        ensures
            exists|t: i64| final(self)@ == old(self)@.with_value(value, t),
    {
        let t = now_millis();
        self.update_value_at(value, t);
        proof {
            assert(self@ == old(self)@.with_value(value, t));
        }
    }

    /// Record a failure, stamped with the clock as it reads now.
    pub fn update_error(&mut self, error: ScanError)
        ensures
            exists|t: i64| final(self)@ == old(self)@.with_error(error@, t),
    {
        let ghost e = error@;
        let t = now_millis();
        self.update_error_at(error, t);
        proof {
            assert(self@ == old(self)@.with_error(e, t));
        }
    }

    /// An exact copy: the form in which a record leaves the guarded state.
    pub fn snapshot(&self) -> (r: Datapoint)
        ensures
            r@ == self@,
    {
        let r = Datapoint {
            name: self.name.clone(),
            address: self.address,
            value: self.value,
            last_updated: self.last_updated,
            error: match &self.error {
                Some(e) => Some(e.duplicate()),
                None => None,
            },
            description: match &self.description {
                Some(d) => Some(d.clone()),
                None => None,
            },
            bitfield_names: match &self.bitfield_names {
                Some(bs) => Some(copy_bit_names(bs)),
                None => None,
            },
        };
        proof {
            assert(r@ =~~= self@);
        }
        r
    }
}

/// Whether the bit with the given index is set in the 16-bit pattern.
pub open spec fn bit_is_set(v: u16, bit: u8) -> bool {
    (v >> (bit as u16)) & 1 == 1
}

/// The declared bits of a bitfield, each paired with whether it is set in
/// the pattern, in declaration order.
pub open spec fn statuses_seq(bs: Seq<(u8, String)>, v: u16) -> Seq<(u8, String, bool)> {
    bs.map_values(|p: (u8, String)| (p.0, p.1, bit_is_set(v, p.0)))
}

/// Non-decreasing bit indices.
pub open spec fn sorted_by_bit(s: Seq<(u8, String, bool)>) -> bool {
    forall|i: int, j: int| 0 <= i < j < s.len() ==> (#[trigger] s[i]).0 <= (#[trigger] s[j]).0
}

impl Datapoint {
    /// Report each declared bit of a bitfield datapoint with its current
    /// status, ordered by bit index: the bit is reported set exactly when
    /// the corresponding bit of the decoded 16-bit pattern is one. `None`
    /// when the datapoint declares no bit names or holds no bitfield value.
    pub fn get_bitfield_status(&self) -> (r: Option<Vec<(u8, String, bool)>>)
        requires
            self@.bits_wf(),
        ensures
            r is Some <==> (self.bitfield_names is Some && self.value matches Some(
                DataValue::Bitfield(_),
            )),
            r matches Some(s) ==> (self.bitfield_names matches Some(bs) && self.value matches Some(
                DataValue::Bitfield(v),
            ) && s@.len() == bs@.len() && sorted_by_bit(s@) && s@.to_multiset() == statuses_seq(
                bs@,
                v,
            ).to_multiset()),
    {
        match (&self.bitfield_names, &self.value) {
            (Some(bs), Some(DataValue::Bitfield(v))) => {
                let v = *v;
                let mut work: Vec<(u8, String, bool)> = Vec::new();
                let mut i: usize = 0;
                proof {
                    assert(self.bitfield_names == Some(*bs));
                    assert(self@.bitfield_names == Some(bit_names_view(bs@)));
                    let ghost bsv = self@.bitfield_names->Some_0;
                    assert forall|k: int| 0 <= k < bs@.len() implies (#[trigger] bs@[k]).0 < 16 by {
                        assert(bsv == bit_names_view(bs@));
                        assert(bsv[k] == (bs@[k].0, bs@[k].1@));
                        assert(bsv[k].0 < 16);
                    }
                }
                while i < bs.len()
                    invariant
                        i <= bs@.len(),
                        work@ == statuses_seq(bs@, v).subrange(0, i as int),
                        forall|k: int| 0 <= k < bs@.len() ==> (#[trigger] bs@[k]).0 < 16,
                    decreases bs@.len() - i,
                {
                    let bit = bs[i].0;
                    let set = (v >> (bit as u16)) & 1 == 1;
                    work.push((bit, bs[i].1.clone(), set));
                    proof {
                        assert(work@ =~= statuses_seq(bs@, v).subrange(0, i + 1 as int));
                    }
                    i = i + 1;
                }
                proof {
                    assert(statuses_seq(bs@, v).subrange(0, bs@.len() as int) =~= statuses_seq(
                        bs@,
                        v,
                    ));
                }
                Some(sort_statuses(work))
            },
            _ => None,
        }
    }
}

/// The index of an entry with the smallest bit index.
fn min_bit_index(v: &Vec<(u8, String, bool)>) -> (m: usize)
    requires
        v@.len() > 0,
    ensures
        m < v@.len(),
        forall|j: int| 0 <= j < v@.len() ==> v@[m as int].0 <= (#[trigger] v@[j]).0,
{
    let mut m: usize = 0;
    let mut i: usize = 1;
    while i < v.len()
        invariant
            m < i <= v@.len(),
            forall|j: int| 0 <= j < i ==> v@[m as int].0 <= (#[trigger] v@[j]).0,
        decreases v@.len() - i,
    {
        if v[i].0 < v[m].0 {
            m = i;
        }
        i = i + 1;
    }
    m
}

/// Order status entries by bit index; the entries themselves are exactly
/// those handed in.
fn sort_statuses(src: Vec<(u8, String, bool)>) -> (out: Vec<(u8, String, bool)>)
    ensures
        out@.len() == src@.len(),
        sorted_by_bit(out@),
        out@.to_multiset() == src@.to_multiset(),
{
    broadcast use vstd::seq_lib::group_to_multiset_ensures, vstd::multiset::group_multiset_axioms;

    let ghost orig = src@;
    let mut rest = src;
    let mut out: Vec<(u8, String, bool)> = Vec::new();
    while rest.len() > 0
        invariant
            out@.to_multiset().add(rest@.to_multiset()) == orig.to_multiset(),
            out@.len() + rest@.len() == orig.len(),
            sorted_by_bit(out@),
            forall|i: int, j: int|
                #![trigger out@[i], rest@[j]]
                0 <= i < out@.len() && 0 <= j < rest@.len() ==> out@[i].0 <= rest@[j].0,
        decreases rest@.len(),
    {
        let ghost out0 = out@;
        let ghost rest0 = rest@;
        let m = min_bit_index(&rest);
        let x = rest.remove(m);
        out.push(x);
        proof {
            rest0.to_multiset_ensures();
            out0.to_multiset_ensures();
            assert(rest0.contains(rest0[m as int]));
            assert(rest@ == rest0.remove(m as int));
            assert(rest0.remove(m as int).to_multiset() =~= rest0.to_multiset().remove(
                rest0[m as int],
            ));
            assert(out@ == out0.push(x));
            assert(out0.push(x).to_multiset() =~= out0.to_multiset().insert(x));
            assert(out@.to_multiset().add(rest@.to_multiset()) =~= orig.to_multiset());
            assert forall|i: int, j: int|
                #![trigger out@[i], rest@[j]]
                0 <= i < out@.len() && 0 <= j < rest@.len() implies out@[i].0 <= rest@[j].0 by {
                assert(rest@[j] == if j < m { rest0[j] } else { rest0[j + 1] });
            }
        }
    }
    proof {
        assert(rest@ =~= Seq::<(u8, String, bool)>::empty());
        assert(rest@.to_multiset().len() == 0);
        assert(rest@.to_multiset() =~= Multiset::<(u8, String, bool)>::empty());
        assert(out@.to_multiset() =~= orig.to_multiset());
    }
    out
}

/// An exact copy of a bit-name table.
fn copy_bit_names(bs: &Vec<(u8, String)>) -> (r: Vec<(u8, String)>)
    ensures
        r@ == bs@,
{
    let mut r: Vec<(u8, String)> = Vec::new();
    let mut i: usize = 0;
    while i < bs.len()
        invariant
            i <= bs@.len(),
            r@ == bs@.subrange(0, i as int),
        decreases bs@.len() - i,
    {
        r.push((bs[i].0, bs[i].1.clone()));
        proof {
            assert(r@ =~= bs@.subrange(0, i + 1 as int));
        }
        i = i + 1;
    }
    proof {
        assert(bs@.subrange(0, bs@.len() as int) =~= bs@);
    }
    r
}

/// Law: two consecutive update attempts made at non-decreasing clock
/// readings leave a non-decreasing timestamp on the record, whichever way
/// each attempt went.
pub proof fn lemma_update_timestamps_monotonic(
    d0: DatapointView,
    d1: DatapointView,
    d2: DatapointView,
    t1: i64,
    t2: i64,
)
    requires
        d0.is_update_at(d1, t1),
        d1.is_update_at(d2, t2),
        t1 <= t2,
    ensures
        d1.last_updated matches Some(u1) && d2.last_updated matches Some(u2) && u1 <= u2,
{
}

} // verus!
