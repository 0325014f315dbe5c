use vstd::prelude::*;

use crate::error::CamelliaError;
use crate::umem::base::{XSK_RING_CONS__DEFAULT_NUM_DESCS, XSK_RING_PROD__DEFAULT_NUM_DESCS};

verus! {

/// `XSK_LIBXDP_FLAGS__INHIBIT_PROG_LOAD` (libxdp `xsk.h`): do not load the
/// default XDP program.
pub const XSK_LIBXDP_FLAGS__INHIBIT_PROG_LOAD: u32 = 1;

/// `XDP_FLAGS_SKB_MODE` (linux `if_link.h`): generic XDP.
pub const XDP_FLAGS_SKB_MODE: u32 = 2;

/// `XDP_FLAGS_DRV_MODE` (linux `if_link.h`): native (driver) XDP.
pub const XDP_FLAGS_DRV_MODE: u32 = 4;

/// `XDP_FLAGS_HW_MODE` (linux `if_link.h`): offloaded XDP.
pub const XDP_FLAGS_HW_MODE: u32 = 8;

/// `XDP_ZEROCOPY` (linux `if_xdp.h`): bind in zero-copy mode.
pub const XDP_ZEROCOPY: u32 = 4;

/// `XDP_USE_NEED_WAKEUP` (linux `if_xdp.h`): the kernel tells when it needs a wakeup.
pub const XDP_USE_NEED_WAKEUP: u32 = 8;

/// Unused descriptor type, kept for API compatibility.
pub struct TxDescriptor {}

/// Where the XDP program runs.
pub enum XDPMode {
    Generic,
    Driver,
    Hardware,
}

/// How the socket gets the kernel to process its rings.
#[derive(Debug, Clone, Copy, PartialEq, Eq)]
pub enum ScheduleMode {
    /// Wake the kernel on every send; on receive when the fill ring asks.
    Legacy,
    /// Wake the kernel only when its ring asks for it.
    Cooperative,
    /// Busy polling: always wake on receive and on send.
    BusyPolling,
}

/// The settings handed to `xsk_socket__create` (`struct xsk_socket_config`).
#[derive(Debug, Clone, Copy, PartialEq, Eq)]
pub struct SocketConfig {
    pub rx_size: u32,
    pub tx_size: u32,
    pub libxdp_flags: u32,
    pub bind_flags: u16,
    pub xdp_flags: u32,
}

/// What a socket builder has collected.
pub struct SocketSettings<U> {
    pub ifname: Option<Seq<char>>,
    pub queue_index: Option<u32>,
    pub rx_queue_size: u32,
    pub tx_queue_size: u32,
    pub no_default_prog: bool,
    pub zero_copy: bool,
    pub cooperate_schedule: bool,
    pub busy_polling: bool,
    pub mode: XDPMode,
    pub umem: Option<U>,
}


/// The XDP attach flag for a mode.
pub open spec fn xdp_flags_for(mode: XDPMode) -> u32 {
    match mode {
        XDPMode::Generic => XDP_FLAGS_SKB_MODE,
        XDPMode::Driver => XDP_FLAGS_DRV_MODE,
        XDPMode::Hardware => XDP_FLAGS_HW_MODE,
    }
}

/// The bind flags: zero-copy and need-wakeup, each when asked for.
pub open spec fn bind_flags_for(zero_copy: bool, cooperate_schedule: bool) -> u16 {
    ((if zero_copy { XDP_ZEROCOPY } else { 0 }) + (if cooperate_schedule {
        XDP_USE_NEED_WAKEUP
    } else {
        0
    })) as u16
}

/// The socket configuration that settings call for.
pub open spec fn config_for<U>(s: SocketSettings<U>) -> SocketConfig {
    SocketConfig {
        rx_size: s.rx_queue_size,
        tx_size: s.tx_queue_size,
        libxdp_flags: if s.no_default_prog {
            XSK_LIBXDP_FLAGS__INHIBIT_PROG_LOAD
        } else {
            0
        },
        bind_flags: bind_flags_for(s.zero_copy, s.cooperate_schedule),
        xdp_flags: xdp_flags_for(s.mode),
    }
}

/// Busy polling wins over cooperative scheduling, which wins over the default.
pub open spec fn schedule_for(busy_polling: bool, cooperate_schedule: bool) -> ScheduleMode {
    if busy_polling {
        ScheduleMode::BusyPolling
    } else if cooperate_schedule {
        ScheduleMode::Cooperative
    } else {
        ScheduleMode::Legacy
    }
}

/// Collects the parameters of an AF_XDP socket over a UMem handle of type `U`.
pub struct XskSocketBuilder<U> {
    ifname: Option<String>,
    queue_index: Option<u32>,
    rx_queue_size: u32,
    tx_queue_size: u32,
    no_default_prog: bool,
    zero_copy: bool,
    cooperate_schedule: bool,
    busy_polling: bool,
    mode: XDPMode,
    umem: Option<U>,
}

/// What a socket builder decided: everything that `xsk_socket__create` and
/// the socket need.
pub struct SocketPlan<U> {
    pub ifname: String,
    pub queue_index: u32,
    pub umem: U,
    pub config: SocketConfig,
    pub schedule_mode: ScheduleMode,
    pub busy_polling: bool,
}

impl<U> View for XskSocketBuilder<U> {
    type V = SocketSettings<U>;

    closed spec fn view(&self) -> SocketSettings<U> {
        SocketSettings {
            ifname: match self.ifname {
                Some(s) => Some(s@),
                None => None,
            },
            queue_index: self.queue_index,
            rx_queue_size: self.rx_queue_size,
            tx_queue_size: self.tx_queue_size,
            no_default_prog: self.no_default_prog,
            zero_copy: self.zero_copy,
            cooperate_schedule: self.cooperate_schedule,
            busy_polling: self.busy_polling,
            mode: self.mode,
            umem: self.umem,
        }
    }
}

impl<U> SocketSettings<U> {
    /// Nothing set: libxdp's ring sizes, driver mode, all options off.
    pub open spec fn initial() -> SocketSettings<U> {
        SocketSettings {
            ifname: None,
            queue_index: None,
            rx_queue_size: XSK_RING_CONS__DEFAULT_NUM_DESCS,
            tx_queue_size: XSK_RING_PROD__DEFAULT_NUM_DESCS,
            no_default_prog: false,
            zero_copy: false,
            cooperate_schedule: false,
            busy_polling: false,
            mode: XDPMode::Driver,
            umem: None,
        }
    }
}

impl<U> Default for XskSocketBuilder<U> {
    fn default() -> (r: Self)
        ensures
            r@ == SocketSettings::<U>::initial(),
    {
        Self::new()
    }
}

impl<U> XskSocketBuilder<U> {
    /// A builder with nothing set.
    pub fn new() -> (r: Self)
        ensures
            r@ == SocketSettings::<U>::initial(),
    {
        Self {
            ifname: None,
            queue_index: None,
            rx_queue_size: XSK_RING_CONS__DEFAULT_NUM_DESCS,
            tx_queue_size: XSK_RING_PROD__DEFAULT_NUM_DESCS,
            mode: XDPMode::Driver,
            umem: None,
            no_default_prog: false,
            zero_copy: false,
            cooperate_schedule: false,
            busy_polling: false,
        }
    }

    /// The configuration for `xsk_socket__create`. Refused when the UMem, the
    /// interface name or the queue index is missing (checked in that order).
    pub fn construct_config(&self) -> (res: Result<SocketConfig, CamelliaError>)
        ensures
            self@.umem is None ==> (res matches Err(CamelliaError::InvalidArgument(msg)) && msg@
                == "UMem is not set"@),
            self@.umem is Some && self@.ifname is None ==> (res matches Err(
                CamelliaError::InvalidArgument(msg),
            ) && msg@ == "Interface name is not set"@),
            self@.umem is Some && self@.ifname is Some && self@.queue_index is None ==> (res matches Err(
                CamelliaError::InvalidArgument(msg),
            ) && msg@ == "Queue index is not set"@),
            self@.umem is Some && self@.ifname is Some && self@.queue_index is Some ==> res == Ok::<
                SocketConfig,
                CamelliaError,
            >(config_for(self@)),
            res matches Ok(config) ==> {
                &&& config.rx_size == self@.rx_queue_size
                &&& config.tx_size == self@.tx_queue_size
                &&& config.libxdp_flags == if self@.no_default_prog { 1u32 } else { 0u32 }
                &&& config.bind_flags == (if self@.zero_copy { 4u16 } else { 0u16 }) | (
                if self@.cooperate_schedule {
                    8u16
                } else {
                    0u16
                })
                &&& config.xdp_flags == match self@.mode {
                    XDPMode::Generic => 2u32,
                    XDPMode::Driver => 4u32,
                    XDPMode::Hardware => 8u32,
                }
            },
    {
        if self.umem.is_none() {
            return Err(CamelliaError::InvalidArgument("UMem is not set".to_owned()));
        }
        if self.ifname.is_none() {
            return Err(CamelliaError::InvalidArgument("Interface name is not set".to_owned()));
        }
        if self.queue_index.is_none() {
            return Err(CamelliaError::InvalidArgument("Queue index is not set".to_owned()));
        }
        let libxdp_flags = if self.no_default_prog {
            XSK_LIBXDP_FLAGS__INHIBIT_PROG_LOAD
        } else {
            0
        };
        let xdp_flags = match self.mode {
            XDPMode::Generic => XDP_FLAGS_SKB_MODE,
            XDPMode::Driver => XDP_FLAGS_DRV_MODE,
            XDPMode::Hardware => XDP_FLAGS_HW_MODE,
        };
        let zero_copy_flag: u32 = if self.zero_copy {
            XDP_ZEROCOPY
        } else {
            0
        };
        let wakeup_flag: u32 = if self.cooperate_schedule {
            XDP_USE_NEED_WAKEUP
        } else {
            0
        };
        let bind_flags = zero_copy_flag | wakeup_flag;
        assert(bind_flags == zero_copy_flag + wakeup_flag) by (bit_vector)
            requires
                zero_copy_flag == 0u32 || zero_copy_flag == 4u32,
                wakeup_flag == 0u32 || wakeup_flag == 8u32,
                bind_flags == zero_copy_flag | wakeup_flag,
        ;
        assert(bind_flags as u16 == (zero_copy_flag as u16) | (wakeup_flag as u16)) by (bit_vector)
            requires
                zero_copy_flag == 0u32 || zero_copy_flag == 4u32,
                wakeup_flag == 0u32 || wakeup_flag == 8u32,
                bind_flags == zero_copy_flag | wakeup_flag,
        ;
        Ok(
            SocketConfig {
                rx_size: self.rx_queue_size,
                tx_size: self.tx_queue_size,
                libxdp_flags,
                bind_flags: bind_flags as u16,
                xdp_flags,
            },
        )
    }

    /// Sets the name of the network interface.
    pub fn ifname(self, ifname: &str) -> (r: Self)
        ensures
            r@ == (SocketSettings { ifname: Some(ifname@), ..self@ }),
    {
        Self { ifname: Some(ifname.to_owned()), ..self }
    }

    /// Sets the index of the interface's queue.
    pub fn queue_index(self, queue_index: u32) -> (r: Self)
        ensures
            r@ == (SocketSettings { queue_index: Some(queue_index), ..self@ }),
    {
        Self { queue_index: Some(queue_index), ..self }
    }

    /// Sets the size of the RX ring.
    pub fn rx_queue_size(self, rx_queue_size: u32) -> (r: Self)
        ensures
            r@ == (SocketSettings { rx_queue_size, ..self@ }),
    {
        Self { rx_queue_size, ..self }
    }

    /// Sets the size of the TX ring.
    pub fn tx_queue_size(self, tx_queue_size: u32) -> (r: Self)
        ensures
            r@ == (SocketSettings { tx_queue_size, ..self@ }),
    {
        Self { tx_queue_size, ..self }
    }

    /// Keeps libxdp from loading its default XDP program.
    pub fn no_default_prog(self) -> (r: Self)
        ensures
            r@ == (SocketSettings { no_default_prog: true, ..self@ }),
    {
        Self { no_default_prog: true, ..self }
    }

    /// Sets where the XDP program runs.
    pub fn xdp_mode(self, mode: XDPMode) -> (r: Self)
        ensures
            r@ == (SocketSettings { mode, ..self@ }),
    {
        Self { mode, ..self }
    }

    /// Binds in zero-copy mode.
    pub fn enable_zero_copy(self) -> (r: Self)
        ensures
            r@ == (SocketSettings { zero_copy: true, ..self@ }),
    {
        Self { zero_copy: true, ..self }
    }

    /// Wakes the kernel only when it asks for it.
    pub fn enable_cooperate_schedule(self) -> (r: Self)
        ensures
            r@ == (SocketSettings { cooperate_schedule: true, ..self@ }),
    {
        Self { cooperate_schedule: true, ..self }
    }

    /// Uses busy polling.
    pub fn enable_busy_polling(self) -> (r: Self)
        ensures
            r@ == (SocketSettings { busy_polling: true, ..self@ }),
    {
        Self { busy_polling: true, ..self }
    }

    /// Sets the UMem. A builder takes one UMem only.
    pub fn with_umem(self, umem: U) -> (r: Self)
        requires
            self@.umem is None,
        ensures
            r@ == (SocketSettings { umem: Some(umem), ..self@ }),
    {
        Self { umem: Some(umem), ..self }
    }

    /// How the socket will be scheduled.
    pub fn schedule_mode(&self) -> (r: ScheduleMode)
        ensures
            r == schedule_for(self@.busy_polling, self@.cooperate_schedule),
            self@.busy_polling ==> r == ScheduleMode::BusyPolling,
            !self@.busy_polling && self@.cooperate_schedule ==> r == ScheduleMode::Cooperative,
            !self@.busy_polling && !self@.cooperate_schedule ==> r == ScheduleMode::Legacy,
    {
        if self.busy_polling {
            ScheduleMode::BusyPolling
        } else if self.cooperate_schedule {
            ScheduleMode::Cooperative
        } else {
            ScheduleMode::Legacy
        }
    }

    /// Everything needed to create the socket: the configuration (refused as
    /// [`XskSocketBuilder::construct_config`] refuses it), the interface, the
    /// queue, the UMem and the scheduling.
    pub fn prepare(self) -> (res: Result<SocketPlan<U>, CamelliaError>)
        ensures
            self@.umem is None ==> (res matches Err(CamelliaError::InvalidArgument(msg)) && msg@
                == "UMem is not set"@),
            self@.umem is Some && self@.ifname is None ==> (res matches Err(
                CamelliaError::InvalidArgument(msg),
            ) && msg@ == "Interface name is not set"@),
            self@.umem is Some && self@.ifname is Some && self@.queue_index is None ==> (res matches Err(
                CamelliaError::InvalidArgument(msg),
            ) && msg@ == "Queue index is not set"@),
            self@.umem is Some && self@.ifname is Some && self@.queue_index is Some ==> (res matches Ok(
                plan,
            ) && {
                &&& Some(plan.ifname@) == self@.ifname
                &&& Some(plan.queue_index) == self@.queue_index
                &&& Some(plan.umem) == self@.umem
                &&& plan.config == config_for(self@)
                &&& plan.schedule_mode == schedule_for(self@.busy_polling, self@.cooperate_schedule)
                &&& plan.busy_polling == self@.busy_polling
            }),
    {
        let config = match self.construct_config() {
            Ok(config) => config,
            Err(e) => return Err(e),
        };
        let schedule_mode = self.schedule_mode();
        let busy_polling = self.busy_polling;
        match (self.ifname, self.queue_index, self.umem) {
            (Some(ifname), Some(queue_index), Some(umem)) => Ok(
                SocketPlan { ifname, queue_index, umem, config, schedule_mode, busy_polling },
            ),
            _ => unreached(),
        }
    }
}


/// Counters of a socket's traffic.
#[derive(Clone, Copy, Debug)]
pub struct XskStat {
    pub rx_packets: u64,
    pub rx_bytes: u64,
    pub rx_wakeup: u64,
    pub rx_batch: u64,
    pub tx_packets: u64,
    pub tx_bytes: u64,
    pub tx_wakeup: u64,
    pub tx_batch: u64,
}

impl Default for XskStat {
    fn default() -> (r: Self)
        ensures
            r == XskStat::zero(),
    {
        XskStat {
            rx_packets: 0,
            rx_bytes: 0,
            rx_wakeup: 0,
            rx_batch: 0,
            tx_packets: 0,
            tx_bytes: 0,
            tx_wakeup: 0,
            tx_batch: 0,
        }
    }
}

/// Whether an empty receive must wake the kernel: always under busy polling,
/// otherwise when the fill ring asks for it.
pub open spec fn rx_wakeup_due(mode: ScheduleMode, received: u32, fill_needs_wakeup: bool) -> bool {
    received == 0 && (mode == ScheduleMode::BusyPolling || fill_needs_wakeup)
}

/// Whether a send must wake the kernel: always, except under cooperative
/// scheduling, where only when the TX ring asks for it.
pub open spec fn tx_wakeup_due(mode: ScheduleMode, tx_needs_wakeup: bool) -> bool {
    mode != ScheduleMode::Cooperative || tx_needs_wakeup
}

impl XskStat {
    /// All counters at zero.
    pub open spec fn zero() -> XskStat {
        XskStat {
            rx_packets: 0,
            rx_bytes: 0,
            rx_wakeup: 0,
            rx_batch: 0,
            tx_packets: 0,
            tx_bytes: 0,
            tx_wakeup: 0,
            tx_batch: 0,
        }
    }

    /// Accounts for a peek of the RX ring that found `received` descriptors
    /// and returns whether the kernel is to be woken (`fill_needs_wakeup`:
    /// whether the fill ring asks for a wakeup). An empty peek that wakes
    /// counts a wakeup; a non-empty one counts a batch.
    pub fn record_rx_peek(&mut self, mode: ScheduleMode, received: u32, fill_needs_wakeup: bool) -> (wake:
        bool)
        requires
            rx_wakeup_due(mode, received, fill_needs_wakeup) ==> old(self).rx_wakeup < u64::MAX,
            received > 0 ==> old(self).rx_batch < u64::MAX,
        ensures
            wake == rx_wakeup_due(mode, received, fill_needs_wakeup),
            received > 0 ==> !wake,
            received == 0 && mode == ScheduleMode::BusyPolling ==> wake,
            received == 0 && mode != ScheduleMode::BusyPolling ==> (wake <==> fill_needs_wakeup),
            *final(self) == (XskStat {
                rx_wakeup: (old(self).rx_wakeup + if wake { 1int } else { 0 }) as u64,
                rx_batch: (old(self).rx_batch + if received > 0 { 1int } else { 0 }) as u64,
                ..*old(self)
            }),
    {
        if received == 0 {
            let wake = match mode {
                ScheduleMode::Cooperative | ScheduleMode::Legacy => fill_needs_wakeup,
                ScheduleMode::BusyPolling => true,
            };
            if wake {
                self.rx_wakeup = self.rx_wakeup + 1;
            }
            wake
        } else {
            self.rx_batch = self.rx_batch + 1;
            false
        }
    }

    /// Accounts for one received descriptor of `len` bytes.
    pub fn record_rx_bytes(&mut self, len: u32)
        requires
            old(self).rx_bytes + len <= u64::MAX,
        ensures
            *final(self) == (XskStat { rx_bytes: (old(self).rx_bytes + len) as u64, ..*old(self) }),
    {
        self.rx_bytes = self.rx_bytes + len as u64;
    }

    /// Accounts for the `received` packets of a receive.
    pub fn record_rx_packets(&mut self, received: u32)
        requires
            old(self).rx_packets + received <= u64::MAX,
        ensures
            *final(self) == (XskStat {
                rx_packets: (old(self).rx_packets + received) as u64,
                ..*old(self)
            }),
    {
        self.rx_packets = self.rx_packets + received as u64;
    }

    /// Given the TX slots that were reserved for `frames` frames, returns how
    /// many frames go out (the smaller number) and counts a batch if any do.
    pub fn record_tx_reserve(&mut self, reserved: u32, frames: u32) -> (actual: u32)
        requires
            (if reserved < frames { reserved } else { frames }) > 0 ==> old(self).tx_batch < u64::MAX,
        ensures
            actual == if reserved < frames { reserved } else { frames },
            *final(self) == (XskStat {
                tx_batch: (old(self).tx_batch + if actual > 0 { 1int } else { 0 }) as u64,
                ..*old(self)
            }),
    {
        let actual_sent = if reserved < frames { reserved } else { frames };
        if actual_sent > 0 {
            self.tx_batch = self.tx_batch + 1;
        }
        actual_sent
    }

    /// Accounts for one sent frame of `len` bytes.
    pub fn record_tx_bytes(&mut self, len: usize)
        requires
            old(self).tx_bytes + len <= u64::MAX,
        ensures
            *final(self) == (XskStat { tx_bytes: (old(self).tx_bytes + len) as u64, ..*old(self) }),
    {
        self.tx_bytes = self.tx_bytes + len as u64;
    }

    /// Accounts for the `sent` packets of a send.
    pub fn record_tx_packets(&mut self, sent: u32)
        requires
            old(self).tx_packets + sent <= u64::MAX,
        ensures
            *final(self) == (XskStat { tx_packets: (old(self).tx_packets + sent) as u64, ..*old(self) }),
    {
        self.tx_packets = self.tx_packets + sent as u64;
    }

    /// After the TX ring was submitted, returns whether the kernel is to be
    /// woken (`tx_needs_wakeup`: whether the TX ring asks for a wakeup), and
    /// counts the wakeup.
    pub fn record_tx_submit(&mut self, mode: ScheduleMode, tx_needs_wakeup: bool) -> (wake: bool)
        requires
            tx_wakeup_due(mode, tx_needs_wakeup) ==> old(self).tx_wakeup < u64::MAX,
        ensures
            wake == tx_wakeup_due(mode, tx_needs_wakeup),
            mode != ScheduleMode::Cooperative ==> wake,
            mode == ScheduleMode::Cooperative ==> (wake <==> tx_needs_wakeup),
            *final(self) == (XskStat {
                tx_wakeup: (old(self).tx_wakeup + if wake { 1int } else { 0 }) as u64,
                ..*old(self)
            }),
    {
        let wake = match mode {
            ScheduleMode::Legacy | ScheduleMode::BusyPolling => true,
            ScheduleMode::Cooperative => tx_needs_wakeup,
        };
        if wake {
            self.tx_wakeup = self.tx_wakeup + 1;
        }
        wake
    }
}

/// What a send does with one frame of a batch.
#[derive(Debug, Clone, Copy, PartialEq, Eq)]
pub enum TxAction {
    /// Write the frame into its reserved TX slot.
    Send,
    /// Stop the send: the frame belongs to another socket's UMem.
    Refuse,
    /// Hand the frame back to the caller: no TX slot is left for it.
    Keep,
}

/// The action for the frame at `index` of a batch of which `actual_sent`
/// frames fit the reserved TX slots; `same_umem` tells whether the frame came
/// from the sending socket's UMem (only asked of frames that fit).
pub fn tx_frame_action(index: u32, actual_sent: u32, same_umem: bool) -> (a: TxAction)
    ensures
        index < actual_sent && same_umem ==> a == TxAction::Send,
        index < actual_sent && !same_umem ==> a == TxAction::Refuse,
        index >= actual_sent ==> a == TxAction::Keep,
{
    if index < actual_sent {
        if same_umem {
            TxAction::Send
        } else {
            TxAction::Refuse
        }
    } else {
        TxAction::Keep
    }
}

/// Each bind flag follows its own option alone: the configuration asks for
/// zero-copy (`XDP_ZEROCOPY`, 4) exactly when zero-copy is on, and for
/// need-wakeup (`XDP_USE_NEED_WAKEUP`, 8) exactly when cooperative scheduling
/// is on, whatever the other option is.
pub proof fn lemma_bind_flags_independent(zero_copy: bool, cooperate_schedule: bool)
    ensures
        (bind_flags_for(zero_copy, cooperate_schedule) & 4u16 == 4u16) == zero_copy,
        (bind_flags_for(zero_copy, cooperate_schedule) & 8u16 == 8u16) == cooperate_schedule,
        bind_flags_for(zero_copy, cooperate_schedule) & !12u16 == 0u16,
{
    let f = bind_flags_for(zero_copy, cooperate_schedule);
    assert(f == 0u16 || f == 4u16 || f == 8u16 || f == 12u16);
    assert(0u16 & 4u16 == 0u16 && 0u16 & 8u16 == 0u16 && 0u16 & !12u16 == 0u16) by (bit_vector);
    assert(4u16 & 4u16 == 4u16 && 4u16 & 8u16 == 0u16 && 4u16 & !12u16 == 0u16) by (bit_vector);
    assert(8u16 & 4u16 == 0u16 && 8u16 & 8u16 == 8u16 && 8u16 & !12u16 == 0u16) by (bit_vector);
    assert(12u16 & 4u16 == 4u16 && 12u16 & 8u16 == 8u16 && 12u16 & !12u16 == 0u16)
        by (bit_vector);
}

/// When an empty receive wakes the kernel: in every schedule an empty receive
/// whose fill ring asks for a wakeup wakes it; outside busy polling it wakes
/// the kernel exactly then; under busy polling it always does; a receive that
/// found packets never does.
pub proof fn lemma_rx_wakeup_rule(mode: ScheduleMode, received: u32, fill_needs_wakeup: bool)
    ensures
        received == 0 && fill_needs_wakeup ==> rx_wakeup_due(mode, received, fill_needs_wakeup),
        received == 0 && mode != ScheduleMode::BusyPolling ==> (rx_wakeup_due(
            mode,
            received,
            fill_needs_wakeup,
        ) <==> fill_needs_wakeup),
        received == 0 && mode == ScheduleMode::BusyPolling ==> rx_wakeup_due(
            mode,
            received,
            fill_needs_wakeup,
        ),
        received > 0 ==> !rx_wakeup_due(mode, received, fill_needs_wakeup),
{
}

/// When a send wakes the kernel: under cooperative scheduling exactly when the
/// TX ring asks for it, in the other schedules always.
pub proof fn lemma_tx_wakeup_rule(mode: ScheduleMode, tx_needs_wakeup: bool)
    ensures
        mode == ScheduleMode::Cooperative ==> (tx_wakeup_due(mode, tx_needs_wakeup)
            <==> tx_needs_wakeup),
        mode != ScheduleMode::Cooperative ==> tx_wakeup_due(mode, tx_needs_wakeup),
{
}

} // verus!
