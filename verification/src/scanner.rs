//! Scan Engine: drives one full pass over the schema, decodes what each
//! read returned, updates the per-datapoint state, and isolates failures to
//! the datapoint they struck.
//!
//! The engine itself performs no network traffic. The driving loop issues
//! the reads, classifies each into a [`ReadOutcome`], and hands it in; every
//! state transition is decided and applied here.

use vstd::prelude::*;

verus! {

use crate::config::{Config, DatapointConfig, RegisterType};
use crate::datapoint::{Datapoint, DatapointView, ErrorKind, ScanError, ScanErrorView};
use crate::decode::{decode, decode_spec};

/// What one read attempt for one datapoint came back with.
pub enum ReadOutcome {
    /// The endpoint answered; these are the words it returned (possibly
    /// fewer than requested).
    Words(Vec<u16>),
    /// The endpoint returned a well-formed protocol error for this read.
    Exception(String),
    /// Lower-level communication failure on this read.
    TransportError(String),
    /// The bounded per-read wait elapsed.
    Timeout,
}

/// The state a freshly constructed datapoint record starts in: identity
/// copied from its schema entry, no value, no error, no timestamp.
pub open spec fn initial_view(c: DatapointConfig) -> DatapointView {
    DatapointView {
        name: c.name@,
        address: c.address,
        value: None,
        last_updated: None,
        error: None,
        description: match c.description {
            Some(d) => Some(d@),
            None => None,
        },
        bitfield_names: match c.bitfields {
            Some(bs) => Some(bs@.map_values(|b: crate::config::BitfieldConfig| (b.bit, b.name@))),
            None => None,
        },
    }
}

/// One datapoint's transition under a read outcome at clock reading `now`:
/// a decodable answer stores the value and clears the error; an answer with
/// too few words leaves the record exactly as it was; each failure records
/// its error class.
pub open spec fn outcome_view(
    pre: DatapointView,
    c: DatapointConfig,
    e: crate::config::Endianness,
    outcome: ReadOutcome,
    now: i64,
) -> DatapointView {
    match outcome {
        ReadOutcome::Words(ws) => match decode_spec(ws@, c.data_type, e) {
            Some(v) => pre.with_value(v, now),
            None => pre,
        },
        ReadOutcome::Exception(t) => pre.with_error(
            ScanErrorView { kind: ErrorKind::ProtocolException, detail: t@ },
            now,
        ),
        ReadOutcome::TransportError(t) => pre.with_error(
            ScanErrorView { kind: ErrorKind::ReadError, detail: t@ },
            now,
        ),
        ReadOutcome::Timeout => pre.with_error(
            ScanErrorView { kind: ErrorKind::ReadTimeout, detail: Seq::<char>::empty() },
            now,
        ),
    }
}

/// The scan engine: the schema it polls for and the one record per schema
/// entry it mutates.
pub struct Scanner {
    config: Config,
    datapoints: Vec<Datapoint>,
}

impl Scanner {
    /// The schema this engine was built from.
    pub closed spec fn spec_config(self) -> Config {
        self.config
    }

    /// The current records, one per schema entry, in declared order.
    pub closed spec fn datapoints_seq(self) -> Seq<Datapoint> {
        self.datapoints@
    }

    /// The records' mathematical content, in declared order.
    pub open spec fn views(self) -> Seq<DatapointView> {
        Seq::new(self.datapoints_seq().len(), |i: int| self.datapoints_seq()[i]@)
    }

    /// One record per schema entry, each carrying its entry's name and
    /// address and well-formed bit declarations.
    pub open spec fn wf(self) -> bool {
        &&& self.datapoints_seq().len() == self.spec_config().datapoints@.len()
        &&& forall|i: int|
            0 <= i < self.datapoints_seq().len() ==> {
                &&& (#[trigger] self.views()[i]).name == self.spec_config().datapoints@[i].name@
                &&& self.views()[i].address == self.spec_config().datapoints@[i].address
                &&& self.views()[i].bits_wf()
            }
    }

    /// Build the engine: one fresh record per schema entry, in declared
    /// order, each starting with no value, no error and no timestamp.
    pub fn new(config: Config) -> (r: Scanner)
        requires
            config.wf(),
        ensures
            r.wf(),
            r.spec_config() == config,
            r.datapoints_seq().len() == config.datapoints@.len(),
            forall|i: int|
                0 <= i < config.datapoints@.len() ==> (#[trigger] r.views()[i]) == initial_view(
                    config.datapoints@[i],
                ),
    {
        let mut datapoints: Vec<Datapoint> = Vec::new();
        let mut i: usize = 0;
        while i < config.datapoints.len()
            invariant
                i <= config.datapoints@.len(),
                datapoints@.len() == i,
                forall|k: int|
                    0 <= k < i ==> (#[trigger] datapoints@[k])@ == initial_view(
                        config.datapoints@[k],
                    ),
            decreases config.datapoints@.len() - i,
        {
            let dpc = &config.datapoints[i];
            let dp = match &dpc.bitfields {
                Some(bfs) => {
                    let mut names: Vec<(u8, String)> = Vec::new();
                    let mut j: usize = 0;
                    while j < bfs.len()
                        invariant
                            j <= bfs@.len(),
                            names@.len() == j,
                            forall|k: int|
                                0 <= k < j ==> (#[trigger] names@[k]) == (
                                    bfs@[k].bit,
                                    bfs@[k].name,
                                ),
                        decreases bfs@.len() - j,
                    {
                        names.push((bfs[j].bit, bfs[j].name.clone()));
                        j = j + 1;
                    }
                    proof {
                        assert(crate::datapoint::bit_names_view(names@) =~= bfs@.map_values(
                            |b: crate::config::BitfieldConfig| (b.bit, b.name@),
                        ));
                    }
                    Datapoint::with_bitfields(
                        dpc.name.clone(),
                        dpc.address,
                        clone_opt_string(&dpc.description),
                        names,
                    )
                },
                None => Datapoint::new(
                    dpc.name.clone(),
                    dpc.address,
                    clone_opt_string(&dpc.description),
                ),
            };
            proof {
                assert(dp@ =~~= initial_view(config.datapoints@[i as int]));
            }
            datapoints.push(dp);
            i = i + 1;
        }
        let r = Scanner { config, datapoints };
        proof {
            assert forall|i2: int| 0 <= i2 < r.spec_config().datapoints@.len() implies {
                &&& (#[trigger] r.views()[i2]).name == r.spec_config().datapoints@[i2].name@
                &&& r.views()[i2].address == r.spec_config().datapoints@[i2].address
                &&& r.views()[i2].bits_wf()
            } by {
                assert(r.views()[i2] == initial_view(r.spec_config().datapoints@[i2]));
                assert(r.spec_config().datapoints@[i2].bits_wf());
                let vw = r.views()[i2];
                if vw.bitfield_names is Some {
                    let bs = vw.bitfield_names->Some_0;
                    let c = r.spec_config().datapoints@[i2];
                    let cbs = c.bitfields->Some_0;
                    assert forall|k: int| 0 <= k < bs.len() implies (#[trigger] bs[k]).0 < 16 by {
                        assert(bs[k] == (cbs@[k].bit, cbs@[k].name@));
                        assert(cbs@[k].bit < 16);
                    }
                }
            }
        }
        r
    }

    /// How many datapoints the schema declares.
    pub fn datapoint_count(&self) -> (n: usize)
        ensures
            n == self.datapoints_seq().len(),
    {
        self.datapoints.len()
    }

    /// Where and what the driving loop must read for one datapoint:
    /// register address, word count, and which register bank.
    pub fn read_request(&self, index: usize) -> (r: (u16, u16, RegisterType))
        requires
            index < self.spec_config().datapoints@.len(),
        ensures
            r.0 == self.spec_config().datapoints@[index as int].address,
            r.1 == self.spec_config().datapoints@[index as int].length,
            r.2 == self.spec_config().datapoints@[index as int].register_type,
    {
        let c = &self.config.datapoints[index];
        (c.address, c.length, c.register_type)
    }

    /// Mark every datapoint with a cycle-wide connection error: same error
    /// class and text on each, same timestamp, prior values untouched.
    pub fn apply_connection_error(&mut self, kind: ErrorKind, detail: &String, now: i64)
        requires
            old(self).wf(),
        ensures
            final(self).wf(),
            final(self).spec_config() == old(self).spec_config(),
            final(self).datapoints_seq().len() == old(self).datapoints_seq().len(),
            forall|i: int|
                0 <= i < old(self).datapoints_seq().len() ==> (#[trigger] final(self).views()[i])
                    == old(self).views()[i].with_error(
                    ScanErrorView { kind, detail: detail@ },
                    now,
                ),
            forall|i: int|
                0 <= i < old(self).datapoints_seq().len() ==> (#[trigger] final(self).views()[i]).value
                    == old(self).views()[i].value,
    {
        let n = self.datapoints.len();
        let mut i: usize = 0;
        while i < n
            invariant
                n == old(self).datapoints_seq().len(),
                i <= n,
                self.config == old(self).spec_config(),
                self.datapoints@.len() == n,
                forall|k: int|
                    i <= k < n ==> (#[trigger] self.datapoints@[k]) == old(self).datapoints_seq()[k],
                forall|k: int|
                    0 <= k < i ==> (#[trigger] self.datapoints@[k])@ == old(self).views()[k]
                        .with_error(ScanErrorView { kind, detail: detail@ }, now),
            decreases n - i,
        {
            let mut nd = self.datapoints[i].snapshot();
            nd.update_error_at(ScanError::new(kind, detail.clone()), now);
            proof {
                assert(old(self).views()[i as int] == old(self).datapoints_seq()[i as int]@);
            }
            self.datapoints[i] = nd;
            i = i + 1;
        }
        proof {
            assert(final(self).wf()) by {
                assert forall|k: int| 0 <= k < n implies {
                    &&& (#[trigger] self.views()[k]).name == self.spec_config().datapoints@[k].name@
                    &&& self.views()[k].address == self.spec_config().datapoints@[k].address
                    &&& self.views()[k].bits_wf()
                } by {
                    assert(self.views()[k] == old(self).views()[k].with_error(
                        ScanErrorView { kind, detail: detail@ },
                        now,
                    ));
                    assert(old(self).wf());
                    assert(old(self).views()[k].name == old(self).spec_config().datapoints@[k].name@);
                }
            }
        }
    }

    /// Apply the outcome of the single read issued for one datapoint. Only
    /// that datapoint's record moves; every other record is left exactly as
    /// it was, whatever the outcome.
    pub fn apply_read_outcome(&mut self, index: usize, outcome: ReadOutcome, now: i64)
        requires
            old(self).wf(),
            index < old(self).datapoints_seq().len(),
        ensures
            final(self).wf(),
            final(self).spec_config() == old(self).spec_config(),
            final(self).datapoints_seq().len() == old(self).datapoints_seq().len(),
            forall|j: int|
                #![trigger final(self).datapoints_seq()[j]]
                0 <= j < old(self).datapoints_seq().len() && j != index
                    ==> final(self).datapoints_seq()[j] == old(self).datapoints_seq()[j],
            final(self).views()[index as int] == outcome_view(
                old(self).views()[index as int],
                old(self).spec_config().datapoints@[index as int],
                old(self).spec_config().server.endianness,
                outcome,
                now,
            ),
    {
        let endianness = self.config.server.endianness;
        let data_type = self.config.datapoints[index].data_type;
        match outcome {
            ReadOutcome::Words(ws) => {
                match decode(&ws, data_type, endianness) {
                    Some(v) => {
                        let mut nd = self.datapoints[index].snapshot();
                        nd.update_value_at(v, now);
                        self.datapoints[index] = nd;
                    },
                    None => (),
                }
            },
            ReadOutcome::Exception(t) => {
                let mut nd = self.datapoints[index].snapshot();
                nd.update_error_at(ScanError::new(ErrorKind::ProtocolException, t), now);
                self.datapoints[index] = nd;
            },
            ReadOutcome::TransportError(t) => {
                let mut nd = self.datapoints[index].snapshot();
                nd.update_error_at(ScanError::new(ErrorKind::ReadError, t), now);
                self.datapoints[index] = nd;
            },
            ReadOutcome::Timeout => {
                let mut nd = self.datapoints[index].snapshot();
                nd.update_error_at(ScanError::new(ErrorKind::ReadTimeout, String::new()), now);
                self.datapoints[index] = nd;
            },
        }
        proof {
            assert(final(self).wf()) by {
                assert forall|k: int| 0 <= k < self.datapoints_seq().len() implies {
                    &&& (#[trigger] self.views()[k]).name == self.spec_config().datapoints@[k].name@
                    &&& self.views()[k].address == self.spec_config().datapoints@[k].address
                    &&& self.views()[k].bits_wf()
                } by {
                    assert(old(self).views()[k].name == old(self).spec_config().datapoints@[k].name@);
                    if k != index {
                        assert(self.views()[k] == old(self).views()[k]);
                    }
                }
            }
        }
    }

    /// Borrow the schema this engine polls for.
    pub fn get_config(&self) -> (r: &Config)
        ensures
            *r == self.spec_config(),
    {
        &self.config
    }

    /// Borrow the records for reading, in declared order.
    pub fn get_datapoints(&self) -> (r: &Vec<Datapoint>)
        ensures
            r@ == self.datapoints_seq(),
    {
        &self.datapoints
    }

    /// A copied, ordered snapshot of every record: what the consumer takes
    /// away while it briefly holds the guard, safe to keep after release.
    pub fn snapshot(&self) -> (r: Vec<Datapoint>)
        ensures
            r@.len() == self.datapoints_seq().len(),
            forall|i: int|
                0 <= i < r@.len() ==> (#[trigger] r@[i])@ == self.views()[i],
    {
        let mut r: Vec<Datapoint> = Vec::new();
        let mut i: usize = 0;
        while i < self.datapoints.len()
            invariant
                i <= self.datapoints_seq().len(),
                r@.len() == i,
                forall|k: int| 0 <= k < i ==> (#[trigger] r@[k])@ == self.views()[k],
            decreases self.datapoints_seq().len() - i,
        {
            r.push(self.datapoints[i].snapshot());
            i = i + 1;
        }
        r
    }

    /// Whether the configured protocol identifier names the one supported
    /// register protocol, compared without regard to ASCII case.
    pub fn protocol_is_supported(&self) -> (r: bool)
        ensures
            r == is_modbus_name(self.spec_config().server.protocol@),
    {
        protocol_name_is_modbus(&self.config.server.protocol)
    }
}

/// Whether a protocol identifier spells "modbus", any ASCII case.
pub open spec fn is_modbus_name(s: Seq<char>) -> bool {
    &&& s.len() == 6
    &&& ascii_eq_ignore_case(s[0], 'm')
    &&& ascii_eq_ignore_case(s[1], 'o')
    &&& ascii_eq_ignore_case(s[2], 'd')
    &&& ascii_eq_ignore_case(s[3], 'b')
    &&& ascii_eq_ignore_case(s[4], 'u')
    &&& ascii_eq_ignore_case(s[5], 's')
}

/// Whether `c` is the lower-case letter `l` or its upper-case form.
pub open spec fn ascii_eq_ignore_case(c: char, l: char) -> bool {
    c == l || (c as u32) + 32 == l as u32
}

/// Case-insensitive check of the protocol identifier against "modbus".
fn protocol_name_is_modbus(p: &String) -> (r: bool)
    ensures
        r == is_modbus_name(p@),
{
    let s: &str = p.as_str();
    if s.unicode_len() != 6 {
        return false;
    }
    let ok = (char_eq_ignore_case(s.get_char(0), 'm') && char_eq_ignore_case(s.get_char(1), 'o')
        && char_eq_ignore_case(s.get_char(2), 'd') && char_eq_ignore_case(s.get_char(3), 'b')
        && char_eq_ignore_case(s.get_char(4), 'u') && char_eq_ignore_case(s.get_char(5), 's'));
    ok
}

/// Compare one character against a lower-case letter, ignoring ASCII case.
fn char_eq_ignore_case(c: char, l: char) -> (r: bool)
    requires
        'a' <= l <= 'z',
    ensures
        r == ascii_eq_ignore_case(c, l),
{
    if c == l {
        true
    } else {
        let cu = c as u32;
        let lu = l as u32;
        cu + 32 == lu
    }
}

/// One full scan cycle's effect on the records, all stamped with the same
/// clock reading `t`: each record either went through one update attempt
/// (value stored, or error recorded) or — only when a read returned too few
/// words — stayed exactly as it was.
pub open spec fn full_cycle_at(pre: Seq<DatapointView>, post: Seq<DatapointView>, t: i64) -> bool {
    &&& post.len() == pre.len()
    &&& forall|i: int|
        0 <= i < pre.len() ==> (pre[i].is_update_at(#[trigger] post[i], t) || post[i] == pre[i])
}

/// Law: across two consecutive scan cycles, every datapoint's timestamp is
/// monotonically non-decreasing, provided the clock readings the cycles
/// were stamped with do not decrease and no record carried a timestamp from
/// the future when the first cycle ran.
pub proof fn lemma_cycle_timestamps_monotonic(
    s0: Seq<DatapointView>,
    s1: Seq<DatapointView>,
    s2: Seq<DatapointView>,
    t1: i64,
    t2: i64,
)
    requires
        full_cycle_at(s0, s1, t1),
        full_cycle_at(s1, s2, t2),
        t1 <= t2,
        forall|i: int|
            0 <= i < s0.len() ==> ((#[trigger] s0[i]).last_updated matches Some(u) ==> u <= t1),
    ensures
        forall|i: int|
            0 <= i < s1.len() ==> ((#[trigger] s1[i]).last_updated matches Some(u1)
                ==> (s2[i].last_updated matches Some(u2) && u1 <= u2)),
{
    assert forall|i: int|
        0 <= i < s1.len() && (#[trigger] s1[i]).last_updated is Some implies (s2[i].last_updated
        is Some && s1[i].last_updated->Some_0 <= s2[i].last_updated->Some_0) by {
        let u1 = s1[i].last_updated->Some_0;
        if s0[i].is_update_at(s1[i], t1) {
            assert(u1 == t1);
        } else {
            assert(s1[i] == s0[i]);
            assert(u1 <= t1);
        }
        if s1[i].is_update_at(s2[i], t2) {
            assert(s2[i].last_updated == Some(t2));
        } else {
            assert(s2[i] == s1[i]);
        }
    }
}

/// An exact copy of an optional text.
fn clone_opt_string(o: &Option<String>) -> (r: Option<String>)
    ensures
        r == *o,
{
    match o {
        Some(s) => Some(s.clone()),
        None => None,
    }
}

} // verus!
