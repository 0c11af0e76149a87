//! The per-device poll: which queries to send for one device, how each
//! reply or error changes the pending device record, and how the outcome is
//! applied to the cache.
//!
//! The background sweep walks the address space; for each device it starts a
//! [`DevicePoll`], sends the commands the poll asks for, hands every reply
//! (or failure) back, and finally applies the poll to the cache.  A
//! no-such-device report leaves the cached slot untouched; any other error
//! fails this device's update with context but never the sweep, which
//! advances by [`next_position`] regardless of the outcome.

use vstd::prelude::*;
use vstd::utf8::{decode_utf8, valid_utf8};
use crate::ascii::{all_digits_bytes, dec_val_bytes, strip_plus_bytes};
use crate::dali_state::{
    spec_update_device,
    DeviceState,
    DeviceStateView,
    RouterState,
    SubnetStateView,
};
use crate::helvar_client::Router;
use crate::helvar_device_type::spec_is_load;
use crate::helvar_error::HelvarError;
use crate::text::vec_to_string;
use crate::wrapper_error::WrapperError;

verus! {

/// Where a device poll stands.
pub enum PollPhase {
    /// The device-type query is outstanding.
    AwaitType,
    /// The load-level query is outstanding.
    AwaitLevel,
    /// The description query is outstanding.
    AwaitDescription,
    /// All queries answered: write the record to the cache.
    Commit,
    /// The device does not exist: leave the cache untouched.
    Skip,
    /// A query failed: leave the cache untouched and report the error.
    Failed,
}

/// Mathematical model of a device poll.
pub ghost struct PollView {
    pub subnet: u8,
    pub addr: u8,
    pub priority: u32,
    pub dev: DeviceStateView,
    pub phase: PollPhase,
}

/// What a query came back with, as far as the poll cares: a payload, a
/// no-such-device report, or any other failure.
pub ghost enum PollReplyView {
    Payload(Seq<u8>),
    NoDevice,
    Fail,
}

/// The view of a concrete reply.
pub open spec fn reply_view(r: &Result<Vec<u8>, HelvarError>) -> PollReplyView {
    match r {
        Ok(p) => PollReplyView::Payload(p@),
        Err(e) => {
            if e is NoSuchDevice {
                PollReplyView::NoDevice
            } else {
                PollReplyView::Fail
            }
        },
    }
}

/// Whether a payload parses as a number (the standard unsigned grammar).
pub open spec fn payload_u32_ok(b: Seq<u8>) -> bool {
    let d = strip_plus_bytes(b);
    d.len() > 0 && all_digits_bytes(d) && dec_val_bytes(d) <= u32::MAX
}

/// The number a payload denotes.
pub open spec fn payload_u32(b: Seq<u8>) -> int {
    dec_val_bytes(strip_plus_bytes(b))
}

/// One step of the poll: how a reply moves the poll forward.
///
/// At the type query, a no-such-device report skips the device and any other
/// failure fails the poll; a numeric payload sets the device type, and the
/// poll goes on to the level query for loads, to the description query on a
/// full pass, or straight to commit.  At the level query the same error
/// handling applies, and the intensity is set (values over 255 saturate).
/// At the description query any failure fails the poll; a UTF-8 payload sets
/// the description and the poll commits.
pub open spec fn poll_step(p: PollView, r: PollReplyView) -> PollView {
    match p.phase {
        PollPhase::AwaitType => match r {
            PollReplyView::Payload(b) => {
                if payload_u32_ok(b) {
                    let t = payload_u32(b) as u32;
                    PollView {
                        dev: DeviceStateView {
                            address: p.dev.address,
                            device_type: t,
                            intensity: p.dev.intensity,
                            description: p.dev.description,
                        },
                        phase: if spec_is_load(t) {
                            PollPhase::AwaitLevel
                        } else if p.priority <= 1 {
                            PollPhase::AwaitDescription
                        } else {
                            PollPhase::Commit
                        },
                        ..p
                    }
                } else {
                    PollView { phase: PollPhase::Failed, ..p }
                }
            },
            PollReplyView::NoDevice => PollView { phase: PollPhase::Skip, ..p },
            PollReplyView::Fail => PollView { phase: PollPhase::Failed, ..p },
        },
        PollPhase::AwaitLevel => match r {
            PollReplyView::Payload(b) => {
                if payload_u32_ok(b) {
                    let level = payload_u32(b);
                    PollView {
                        dev: DeviceStateView {
                            address: p.dev.address,
                            device_type: p.dev.device_type,
                            intensity: if level <= 255 {
                                level as u8
                            } else {
                                255
                            },
                            description: p.dev.description,
                        },
                        phase: if p.priority > 1 {
                            PollPhase::Commit
                        } else {
                            PollPhase::AwaitDescription
                        },
                        ..p
                    }
                } else {
                    PollView { phase: PollPhase::Failed, ..p }
                }
            },
            PollReplyView::NoDevice => PollView { phase: PollPhase::Skip, ..p },
            PollReplyView::Fail => PollView { phase: PollPhase::Failed, ..p },
        },
        PollPhase::AwaitDescription => match r {
            PollReplyView::Payload(b) => {
                if valid_utf8(b) {
                    PollView {
                        dev: DeviceStateView {
                            address: p.dev.address,
                            device_type: p.dev.device_type,
                            intensity: p.dev.intensity,
                            description: decode_utf8(b),
                        },
                        phase: PollPhase::Commit,
                        ..p
                    }
                } else {
                    PollView { phase: PollPhase::Failed, ..p }
                }
            },
            PollReplyView::NoDevice => PollView { phase: PollPhase::Failed, ..p },
            PollReplyView::Fail => PollView { phase: PollPhase::Failed, ..p },
        },
        _ => p,
    }
}

/// The cache after applying a finished poll: changed only by a commit.
pub open spec fn spec_apply_poll(v: Seq<Option<SubnetStateView>>, p: PollView) -> Seq<
    Option<SubnetStateView>,
> {
    if p.phase is Commit {
        spec_update_device(v, p.subnet as u32, p.addr as u32, p.dev)
    } else {
        v
    }
}

/// The context a failure at each query phase is wrapped with.
pub open spec fn phase_context(phase: PollPhase) -> Seq<char> {
    match phase {
        PollPhase::AwaitType => "Failed to query device type"@,
        PollPhase::AwaitLevel => "Failed to query load level"@,
        PollPhase::AwaitDescription => "Failed to query device description"@,
        _ => ""@,
    }
}

/// One device's poll in progress.
pub struct DevicePoll {
    pub subnet: u8,
    pub addr: u8,
    pub priority: u32,
    pub dev: DeviceState,
    pub phase: PollPhase,
    pub error: Option<WrapperError>,
}

impl View for DevicePoll {
    type V = PollView;

    open spec fn view(&self) -> PollView {
        PollView {
            subnet: self.subnet,
            addr: self.addr,
            priority: self.priority,
            dev: self.dev@,
            phase: self.phase,
        }
    }
}

impl DevicePoll {
    /// Addresses are in range, and exactly a failed poll carries an error.
    pub open spec fn wf(self) -> bool {
        &&& self.subnet >= 1
        &&& 1 <= self.addr <= 64
        &&& (self.phase is Failed <==> self.error is Some)
    }

    /// Starts a poll of the device at (`subnet`, `addr`): the pending record
    /// continues from the cached state, or from a blank one, with the
    /// address set; the device-type query comes first.
    pub fn start(cached: Option<&DeviceState>, subnet: u8, addr: u8, priority: u32) -> (p:
        DevicePoll)
        requires
            subnet >= 1,
            1 <= addr <= 64,
        ensures
            p.wf(),
            p@.subnet == subnet,
            p@.addr == addr,
            p@.priority == priority,
            p@.phase is AwaitType,
            p@.dev == (match cached {
                Some(d) => DeviceStateView {
                    address: addr as u32,
                    device_type: d@.device_type,
                    intensity: d@.intensity,
                    description: d@.description,
                },
                None => DeviceStateView {
                    address: addr as u32,
                    device_type: 0,
                    intensity: 0,
                    description: Seq::<char>::empty(),
                },
            }),
    {
        let mut dev = match cached {
            Some(d) => d.duplicate(),
            None => DeviceState::new(),
        };
        dev.address = addr as u32;
        DevicePoll { subnet, addr, priority, dev, phase: PollPhase::AwaitType, error: None }
    }

    /// The command to send next, if a query is outstanding.
    pub fn next_command(&self, router: &Router) -> (c: Option<Vec<u8>>)
        ensures
            self.phase is AwaitType ==> (c matches Some(v) && v@
                == crate::helvar_client::query_cmd_bytes(
                router.helvarnet_version,
                crate::helvar_defs::CMD_QUERY_DEVICE_TYPE as u32,
                router.addr@,
                self.subnet,
                self.addr,
            )),
            self.phase is AwaitLevel ==> (c matches Some(v) && v@
                == crate::helvar_client::query_cmd_bytes(
                router.helvarnet_version,
                crate::helvar_defs::CMD_QUERY_LOAD_LEVEL as u32,
                router.addr@,
                self.subnet,
                self.addr,
            )),
            self.phase is AwaitDescription ==> (c matches Some(v) && v@
                == crate::helvar_client::query_cmd_bytes(
                router.helvarnet_version,
                crate::helvar_defs::CMD_QUERY_DESCRIPTION_DEVICE as u32,
                router.addr@,
                self.subnet,
                self.addr,
            )),
            !(self.phase is AwaitType || self.phase is AwaitLevel || self.phase
                is AwaitDescription) ==> c is None,
    {
        match self.phase {
            PollPhase::AwaitType => Some(router.query_device_type_cmd(self.subnet, self.addr)),
            PollPhase::AwaitLevel => Some(router.query_load_level_cmd(self.subnet, self.addr)),
            PollPhase::AwaitDescription => Some(
                router.query_device_description_cmd(self.subnet, self.addr),
            ),
            _ => None,
        }
    }

    /// Feeds the outcome of the outstanding query into the poll, per
    /// [`poll_step`]; a failure is recorded wrapped with the phase's
    /// context, preserving the original error.
    pub fn on_reply(&mut self, reply: Result<Vec<u8>, HelvarError>)
        requires
            old(self).wf(),
            old(self).phase is AwaitType || old(self).phase is AwaitLevel || old(self).phase
                is AwaitDescription,
        ensures
            final(self).wf(),
            final(self)@ == poll_step(old(self)@, reply_view(&reply)),
            final(self).phase is Failed ==> (final(self).error matches Some(w) && w.prefix@
                == phase_context(old(self).phase) && (reply matches Err(e) ==> w.wrapped == e)),
    {
        let prefix: &str = match self.phase {
            PollPhase::AwaitType => "Failed to query device type",
            PollPhase::AwaitLevel => "Failed to query load level",
            _ => "Failed to query device description",
        };
        match reply {
            Err(e) => {
                let skip = match (&self.phase, &e) {
                    (PollPhase::AwaitType, HelvarError::NoSuchDevice) => true,
                    (PollPhase::AwaitLevel, HelvarError::NoSuchDevice) => true,
                    _ => false,
                };
                if skip {
                    self.phase = PollPhase::Skip;
                } else {
                    self.error = Some(WrapperError::new(prefix, e));
                    self.phase = PollPhase::Failed;
                }
            },
            Ok(payload) => {
                match self.phase {
                    PollPhase::AwaitType => {
                        match crate::helvar_client::parse_u32_reply(payload.as_slice()) {
                            Ok(t) => {
                                self.dev.device_type = t;
                                let is_load = crate::helvar_device_type::HelvarDeviceType(
                                    t,
                                ).is_load();
                                self.phase = if is_load {
                                    PollPhase::AwaitLevel
                                } else if self.priority <= 1 {
                                    PollPhase::AwaitDescription
                                } else {
                                    PollPhase::Commit
                                };
                            },
                            Err(e) => {
                                self.error = Some(WrapperError::new(prefix, e));
                                self.phase = PollPhase::Failed;
                            },
                        }
                    },
                    PollPhase::AwaitLevel => {
                        match crate::helvar_client::parse_u32_reply(payload.as_slice()) {
                            Ok(level) => {
                                self.dev.intensity = if level <= 255 {
                                    level as u8
                                } else {
                                    255
                                };
                                self.phase = if self.priority > 1 {
                                    PollPhase::Commit
                                } else {
                                    PollPhase::AwaitDescription
                                };
                            },
                            Err(e) => {
                                self.error = Some(WrapperError::new(prefix, e));
                                self.phase = PollPhase::Failed;
                            },
                        }
                    },
                    _ => {
                        match vec_to_string(payload) {
                            Some(descr) => {
                                self.dev.description = descr;
                                self.phase = PollPhase::Commit;
                            },
                            None => {
                                self.error = Some(
                                    WrapperError::new(
                                        prefix,
                                        HelvarError::from_error(
                                            String::from_str("Reply is not valid UTF-8"),
                                        ),
                                    ),
                                );
                                self.phase = PollPhase::Failed;
                            },
                        }
                    },
                }
            },
        }
    }

    /// Applies a finished poll to the cache: a commit writes the record at
    /// its slot, a skip and a failure leave the cache untouched, and a
    /// failure reports the wrapped error.
    pub fn apply(self, rs: &mut RouterState) -> (r: Result<(), WrapperError>)
        requires
            old(rs).wf(),
            self.wf(),
            self.phase is Commit || self.phase is Skip || self.phase is Failed,
        ensures
            final(rs).wf(),
            final(rs)@ == spec_apply_poll(old(rs)@, self@),
            (self.phase is Commit || self.phase is Skip) <==> r is Ok,
            self.phase is Failed ==> (r matches Err(w) && Some(w) == self.error),
    {
        match self.phase {
            PollPhase::Commit => {
                rs.update_device(self.subnet, self.addr, self.dev);
                Ok(())
            },
            PollPhase::Skip => Ok(()),
            _ => {
                match self.error {
                    Some(w) => Err(w),
                    None => vstd::pervasive::unreached(),
                }
            },
        }
    }
}

/// A no-such-device report for the device-type query leaves the cache
/// exactly as it was once the poll is applied.
pub proof fn lemma_no_such_device_preserves_cache(
    p: PollView,
    v: Seq<Option<SubnetStateView>>,
)
    requires
        p.phase is AwaitType,
    ensures
        poll_step(p, PollReplyView::NoDevice).phase is Skip,
        spec_apply_poll(v, poll_step(p, PollReplyView::NoDevice)) == v,
{
}

/// The sweep's next position after polling (`subnet`, `addr`), whatever that
/// poll's outcome was: addresses 1..64 in order, then the next subnet, then
/// around again from the first subnet.  Taking no account of the outcome is
/// what keeps one device's failure from stopping the sweep.
pub open spec fn spec_next_position(
    subnet: u8,
    addr: u8,
    first_subnet: u8,
    last_subnet: u8,
) -> (u8, u8) {
    if addr < 64 {
        (subnet, (addr + 1) as u8)
    } else if subnet < last_subnet {
        ((subnet + 1) as u8, 1u8)
    } else {
        (first_subnet, 1u8)
    }
}

/// See [`spec_next_position`].
pub fn next_position(subnet: u8, addr: u8, first_subnet: u8, last_subnet: u8) -> (r: (u8, u8))
    requires
        first_subnet <= subnet <= last_subnet,
        1 <= addr <= 64,
        first_subnet >= 1,
    ensures
        r == spec_next_position(subnet, addr, first_subnet, last_subnet),
        first_subnet <= r.0 <= last_subnet,
        1 <= r.1 <= 64,
{
    if addr < 64 {
        (subnet, addr + 1)
    } else if subnet < last_subnet {
        (subnet + 1, 1)
    } else {
        (first_subnet, 1)
    }
}

} // verus!
