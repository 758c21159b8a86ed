//! Traffic statistics: the records the managed side sees, the status of each
//! service call as a result, and the registrar of the listeners to traffic
//! changes.
use vstd::prelude::*;

use crate::callback::{GlobalRefCallback, Holders, InputVec};
use crate::env::{AniEnv, AniRef, ManagedValue};
use crate::error::{business_message, convert_to_business_error, AniError, BusinessError};
use crate::worker::WorkerQueue;

use std::collections::HashMap;

verus! {

/// The bearers traffic can be counted for.
#[derive(Clone, Copy, PartialEq, Eq, Structural, Debug)]
pub enum NetBearType {
    BearerCellular,
    BearerWifi,
    BearerBluetooth,
    BearerEthernet,
    BearerVpn,
    BearerWifiAware,
    BearerDefault,
}

/// A network and a time window to count its traffic in.
#[derive(Clone, Copy, PartialEq, Eq, Structural, Debug)]
pub struct AniNetworkInfo {
    pub type_: NetBearType,
    pub start_time: i32,
    pub end_time: i32,
    pub sim_id: Option<i32>,
}

/// Bytes and packets received and sent.
#[derive(Clone, Copy, PartialEq, Eq, Structural, Debug)]
pub struct NetStatsInfo {
    pub rx_bytes: i64,
    pub tx_bytes: i64,
    pub rx_packets: i64,
    pub tx_packets: i64,
}

/// Traffic of one application.
#[derive(Clone, Copy, PartialEq, Eq, Structural, Debug)]
pub struct AniUidNetStatsInfoPair {
    pub uid: i32,
    pub net_stats_info: NetStatsInfo,
}

/// Traffic in one time window.
#[derive(Clone, Copy, PartialEq, Eq, Structural, Debug)]
pub struct AniNetStatsInfoSequenceItem {
    pub start_time: i32,
    pub end_time: i32,
    pub info: NetStatsInfo,
}

/// A change of traffic: on an interface, and for an application when `uid`
/// is present.
pub struct NetStatsChangeInfo {
    pub iface: String,
    pub uid: Option<i32>,
}

/// An interface and a time window.
pub struct IfaceInfo {
    pub iface: String,
    pub start_time: i32,
    pub end_time: i32,
}

/// An application's traffic on an interface in a time window.
pub struct UidInfo {
    pub iface_info: IfaceInfo,
    pub uid: i32,
}

/// The traffic counters as the service reports them.
pub type NetStatsInfoInner = NetStatsInfo;

/// The service's default for an absent SIM id.
pub open spec fn sim_or_default(o: Option<i32>) -> i32 {
    match o {
        Some(v) => v,
        None => 0,
    }
}

impl AniNetworkInfo {
    /// The SIM id the service is asked for: zero when none is given.
    pub fn service_sim_id(&self) -> (r: i32)
        ensures
            r == sim_or_default(self.sim_id),
    {
        match self.sim_id {
            Some(v) => v,
            None => 0,
        }
    }
}

impl InputVec for NetStatsChangeInfo {
    open spec fn cost(&self) -> Option<nat> {
        Some(3)
    }

    open spec fn encoded_by(&self, env: &AniEnv, args: Seq<AniRef>) -> bool {
        crate::callback::single_object(env, args, "@ohos.net.statistics.statistics.NetStatsChangeInfo"@)
    }

    proof fn lemma_encoding_kept(&self, old: &AniEnv, new: &AniEnv, args: Seq<AniRef>) {
        crate::callback::lemma_single_object_kept(old, new, args, "@ohos.net.statistics.statistics.NetStatsChangeInfo"@);
    }

    fn input(&self, env: &mut AniEnv) -> (r: Result<Vec<AniRef>, AniError>) {
        let ghost e0 = *env;
        let iface = env.new_local(ManagedValue::Str(self.iface.clone()))?;
        let ghost e1 = *env;
        let uid = match self.uid {
            Some(u) => env.new_local(ManagedValue::Int(u))?,
            None => env.new_local(ManagedValue::Undefined)?,
        };
        let ghost e2 = *env;
        let obj = env.new_object(
            String::from_str("@ohos.net.statistics.statistics.NetStatsChangeInfo"),
            vec![iface, uid],
        );
        proof {
            crate::compound::lemma_extends_trans(&e0, &e1, &e2);
            crate::compound::lemma_extends_trans(&e0, &e2, env);
        }
        Ok(vec![obj?])
    }
}

/// A listener to traffic changes.
#[derive(PartialEq, Eq, Structural)]
pub enum CallbackFlavor {
    NetStatesChange(GlobalRefCallback),
}

/// The listeners of `s` that are not `c`, in order.
pub open spec fn without(s: Seq<CallbackFlavor>, c: CallbackFlavor) -> Seq<CallbackFlavor>
    decreases s.len(),
{
    if s.len() == 0 {
        s
    } else if s.last() == c {
        without(s.drop_last(), c)
    } else {
        without(s.drop_last(), c).push(s.last())
    }
}

/// The listeners to traffic changes, in registration order. Every listener
/// is told of every change, once, in that order.
pub struct Registar {
    pub listeners: Vec<CallbackFlavor>,
}

impl Registar {
    /// No listener.
    pub fn new() -> (r: Registar)
        ensures
            r.listeners@.len() == 0,
    {
        Registar { listeners: Vec::new() }
    }

    /// Registers `callback` behind the listeners already registered, once the
    /// service observer is in place (`status` zero); otherwise the status is
    /// the error and nothing changes.
    pub fn register(&mut self, callback: CallbackFlavor, status: i32) -> (r: Result<(), i32>)
        ensures
            status != 0 ==> r == Err::<(), i32>(status) && final(self).listeners@ == old(
                self,
            ).listeners@,
            status == 0 ==> r is Ok && final(self).listeners@ == old(self).listeners@.push(
                callback,
            ),
    {
        if status != 0 {
            return Err(status);
        }
        self.listeners.push(callback);
        Ok(())
    }

    /// Removes `callback`, or every listener when none is named. Returns
    /// whether no listener is left, in which case the service observer is to
    /// be removed.
    pub fn unregister(&mut self, callback: Option<CallbackFlavor>) -> (r: bool)
        ensures
            callback is None ==> final(self).listeners@.len() == 0,
            callback is Some ==> final(self).listeners@ == without(
                old(self).listeners@,
                callback->Some_0,
            ),
            r == (final(self).listeners@.len() == 0),
    {
        match callback {
            None => {
                self.listeners.clear();
            },
            Some(c) => {
                let ghost all = self.listeners@;
                let mut kept: Vec<CallbackFlavor> = Vec::new();
                let mut i: usize = 0;
                while i < self.listeners.len()
                    invariant
                        self.listeners@ == all,
                        i <= all.len(),
                        kept@ == without(all.subrange(0, i as int), c),
                    decreases all.len() - i,
                {
                    let CallbackFlavor::NetStatesChange(g) = &self.listeners[i];
                    let ghost s = all.subrange(0, i + 1);
                    assert(s.drop_last() =~= all.subrange(0, i as int));
                    let CallbackFlavor::NetStatesChange(cg) = &c;
                    if g.slot != cg.slot {
                        kept.push(CallbackFlavor::NetStatesChange(GlobalRefCallback { slot: g.slot }));
                    }
                    i = i + 1;
                }
                assert(all.subrange(0, all.len() as int) =~= all);
                self.listeners = kept;
            },
        }
        self.listeners.len() == 0
    }

    /// Every listener is held.
    pub open spec fn held_by(&self, holders: &Holders) -> bool {
        forall|i: int|
            0 <= i < self.listeners@.len() ==> holders.holds(
                #[trigger] self.listeners@[i]->NetStatesChange_0,
            )
    }

    /// Hands `param` to every listener through the dedicated worker's queue,
    /// in registration order.
    fn notify(&self, holders: &Holders, queue: &mut WorkerQueue<NetStatsChangeInfo>, param: &NetStatsChangeInfo)
        requires
            self.held_by(holders),
        ensures
            final(queue).pending@.len() == old(queue).pending@.len() + self.listeners@.len(),
            final(queue).pending@.subrange(0, old(queue).pending@.len() as int) == old(queue).pending@,
            forall|i: int|
                0 <= i < self.listeners@.len() ==> (#[trigger] final(queue).pending@[old(queue).pending@.len() + i]).callback
                    == holders.slots@[self.listeners@[i]->NetStatesChange_0.slot as int].global,
            forall|i: int|
                old(queue).pending@.len() <= i < final(queue).pending@.len() ==> (
                #[trigger] final(queue).pending@[i]).input.uid == param.uid && final(queue).pending@[i].input.iface@
                    == param.iface@,
    {
        let ghost start = queue.pending@;
        let mut i: usize = 0;
        while i < self.listeners.len()
            invariant
                self.held_by(holders),
                i <= self.listeners@.len(),
                queue.pending@.len() == start.len() + i,
                queue.pending@.subrange(0, start.len() as int) == start,
                forall|j: int|
                    0 <= j < i ==> (#[trigger] queue.pending@[start.len() + j]).callback
                        == holders.slots@[self.listeners@[j]->NetStatesChange_0.slot as int].global,
                forall|j: int|
                    start.len() <= j < queue.pending@.len() ==> (#[trigger] queue.pending@[j]).input.uid
                        == param.uid && queue.pending@[j].input.iface@ == param.iface@,
            decreases self.listeners@.len() - i,
        {
            let CallbackFlavor::NetStatesChange(cb) = &self.listeners[i];
            let ghost before = queue.pending@;
            let p = NetStatsChangeInfo { iface: param.iface.clone(), uid: param.uid };
            cb.execute_collective(holders, queue, p);
            proof {
                assert forall|j: int| 0 <= j < start.len() implies queue.pending@[j] == start[j] by {
                    assert(queue.pending@.drop_last()[j] == before[j]);
                    assert(before.subrange(0, start.len() as int)[j] == start[j]);
                }
                assert(queue.pending@.subrange(0, start.len() as int) =~= start);
                assert forall|j: int| 0 <= j < i + 1 implies (#[trigger] queue.pending@[start.len() + j]).callback
                        == holders.slots@[self.listeners@[j]->NetStatesChange_0.slot as int].global by {
                    if j < i {
                        assert(queue.pending@.drop_last()[start.len() + j] == before[start.len() + j]);
                    }
                }
                assert forall|j: int| start.len() <= j < queue.pending@.len() implies (#[trigger] queue.pending@[j]).input.uid
                        == param.uid && queue.pending@[j].input.iface@ == param.iface@ by {
                    if j < queue.pending@.len() - 1 {
                        assert(queue.pending@.drop_last()[j] == before[j]);
                    }
                }
            }
            i = i + 1;
        }
    }

    /// Reports a change of an interface's traffic to every listener; the
    /// application id is left out.
    pub fn on_net_iface_stats_changed(
        &self,
        holders: &Holders,
        queue: &mut WorkerQueue<NetStatsChangeInfo>,
        iface: String,
        uid: i32,
    )
        requires
            self.held_by(holders),
        ensures
            final(queue).pending@.len() == old(queue).pending@.len() + self.listeners@.len(),
            final(queue).pending@.subrange(0, old(queue).pending@.len() as int) == old(
                queue,
            ).pending@,
            forall|i: int|
                0 <= i < self.listeners@.len() ==> (#[trigger] final(queue).pending@[old(
                    queue,
                ).pending@.len() + i]).callback == holders.slots@[self.listeners@[i]->NetStatesChange_0.slot as int].global,
            forall|i: int|
                old(queue).pending@.len() <= i < final(queue).pending@.len() ==> (
                #[trigger] final(queue).pending@[i]).input.uid is None && final(queue).pending@[i].input.iface@
                    == iface@,
    {
        let param = NetStatsChangeInfo { iface, uid: None };
        self.notify(holders, queue, &param);
    }

    /// Reports a change of an application's traffic to every listener, with
    /// its application id.
    pub fn on_net_uid_stats_changed(
        &self,
        holders: &Holders,
        queue: &mut WorkerQueue<NetStatsChangeInfo>,
        iface: String,
        uid: i32,
    )
        requires
            self.held_by(holders),
        ensures
            final(queue).pending@.len() == old(queue).pending@.len() + self.listeners@.len(),
            final(queue).pending@.subrange(0, old(queue).pending@.len() as int) == old(
                queue,
            ).pending@,
            forall|i: int|
                0 <= i < self.listeners@.len() ==> (#[trigger] final(queue).pending@[old(
                    queue,
                ).pending@.len() + i]).callback == holders.slots@[self.listeners@[i]->NetStatesChange_0.slot as int].global,
            forall|i: int|
                old(queue).pending@.len() <= i < final(queue).pending@.len() ==> (
                #[trigger] final(queue).pending@[i]).input.uid == Some(uid) && final(queue).pending@[i].input.iface@
                    == iface@,
    {
        let param = NetStatsChangeInfo { iface, uid: Some(uid) };
        self.notify(holders, queue, &param);
    }
}

/// Registers `callback` as the listener to traffic changes, once the service
/// observer is in place (`status` zero).
pub fn on_net_states_change(
    rt: &mut crate::showcase_callbacks::Runtime,
    registrar: &mut Registar,
    callback: crate::objects::AniFnObject,
    status: i32,
) -> (r: Result<(), BusinessError>)
    requires
        old(rt).wf(),
    ensures
        final(rt).wf(),
        r is Ok ==> final(registrar).listeners@.len() == old(registrar).listeners@.len() + 1
            && final(registrar).listeners@.drop_last() == old(registrar).listeners@,
        r is Err ==> final(registrar).listeners@ == old(registrar).listeners@,
        old(registrar).held_by(&old(rt).holders) ==> final(registrar).held_by(&final(rt).holders),
{
    let ghost old_slots = rt.holders.slots@;
    let g = match callback.into_global_callback(&mut rt.env, &mut rt.holders) {
        Ok(g) => g,
        Err(e) => {
            return Err(BusinessError::from_ani(e));
        },
    };
    let ghost slot = g.slot;
    let res = registrar.register(CallbackFlavor::NetStatesChange(g), status);
    proof {
        assert forall|i: int| 0 <= i < registrar.listeners@.len() && old(registrar).held_by(&old(rt).holders)
            implies rt.holders.holds(#[trigger] registrar.listeners@[i]->NetStatesChange_0) by {
            if i < old(registrar).listeners@.len() {
                assert(registrar.listeners@[i] == old(registrar).listeners@[i]);
                let s = old(registrar).listeners@[i]->NetStatesChange_0.slot as int;
                assert(old(rt).holders.holds(old(registrar).listeners@[i]->NetStatesChange_0));
                assert(rt.holders.slots@[s] == old_slots[s]);
            } else {
                assert(registrar.listeners@[i]->NetStatesChange_0.slot == slot);
            }
        }
        if res is Ok {
            assert(registrar.listeners@.drop_last() =~= old(registrar).listeners@);
        }
    }
    match res {
        Ok(()) => Ok(()),
        Err(code) => Err(convert_to_business_error(code)),
    }
}

/// Removes the listener `callback`, or every listener when the managed side
/// passed undefined. Returns whether no listener is left, so that the
/// service observer is to be removed.
pub fn off_net_states_change(
    rt: &mut crate::showcase_callbacks::Runtime,
    registrar: &mut Registar,
    callback: crate::objects::AniFnObject,
) -> (r: Result<bool, BusinessError>)
    requires
        old(rt).wf(),
    ensures
        final(rt).wf(),
        r is Ok ==> r->Ok_0 == (final(registrar).listeners@.len() == 0),
        r is Ok <==> old(rt).env.is_live(callback.0.0.inner) && (old(rt).env.value(
            callback.0.0.inner,
        ) == Some(ManagedValue::Undefined) || old(rt).env.has_room(1)),
        final(rt).holders.slots@.len() >= old(rt).holders.slots@.len(),
        forall|i: int|
            0 <= i < old(rt).holders.slots@.len() ==> final(rt).holders.slots@[i] == old(
                rt,
            ).holders.slots@[i],
{
    let undefined = match rt.env.is_undefined(&callback.0.0) {
        Ok(u) => u,
        Err(e) => {
            return Err(BusinessError::from_ani(e));
        },
    };
    if undefined {
        return Ok(registrar.unregister(None));
    }
    let g = match callback.into_global_callback(&mut rt.env, &mut rt.holders) {
        Ok(g) => g,
        Err(e) => {
            return Err(BusinessError::from_ani(e));
        },
    };
    let empty = registrar.unregister(Some(CallbackFlavor::NetStatesChange(GlobalRefCallback { slot: g.slot })));
    let ghost slots_before = rt.holders.slots@;
    rt.holders.drop_callback(&mut rt.env, g);
    proof {
        assert forall|i: int| 0 <= i < old(rt).holders.slots@.len() implies rt.holders.slots@[i]
            == old(rt).holders.slots@[i] by {
            assert(slots_before[i] == old(rt).holders.slots@[i]);
        }
    }
    Ok(empty)
}

/// Entry point of the service for a change of an interface's traffic.
pub fn execute_net_iface_stats_changed(
    registrar: &Registar,
    holders: &Holders,
    queue: &mut WorkerQueue<NetStatsChangeInfo>,
    iface: String,
    uid: i32,
)
    requires
        registrar.held_by(holders),
    ensures
        final(queue).pending@.len() == old(queue).pending@.len() + registrar.listeners@.len(),
        final(queue).pending@.subrange(0, old(queue).pending@.len() as int) == old(queue).pending@,
        forall|i: int|
            0 <= i < registrar.listeners@.len() ==> (#[trigger] final(queue).pending@[old(
                queue,
            ).pending@.len() + i]).callback == holders.slots@[registrar.listeners@[i]->NetStatesChange_0.slot as int].global,
{
    registrar.on_net_iface_stats_changed(holders, queue, iface, uid);
}

/// Entry point of the service for a change of an application's traffic.
pub fn execute_net_uid_stats_changed(
    registrar: &Registar,
    holders: &Holders,
    queue: &mut WorkerQueue<NetStatsChangeInfo>,
    iface: String,
    uid: i32,
)
    requires
        registrar.held_by(holders),
    ensures
        final(queue).pending@.len() == old(queue).pending@.len() + registrar.listeners@.len(),
        final(queue).pending@.subrange(0, old(queue).pending@.len() as int) == old(queue).pending@,
        forall|i: int|
            0 <= i < registrar.listeners@.len() ==> (#[trigger] final(queue).pending@[old(
                queue,
            ).pending@.len() + i]).callback == holders.slots@[registrar.listeners@[i]->NetStatesChange_0.slot as int].global,
{
    registrar.on_net_uid_stats_changed(holders, queue, iface, uid);
}

/// The client of the statistics service: each call's status and result as
/// the caller receives them.
pub struct NetStatsClient;

impl NetStatsClient {
    /// Bytes received on all interfaces.
    pub fn get_all_rx_bytes(ret: i32, bytes: u64) -> (r: Result<u64, i32>)
        ensures
            ret == 0 ==> r == Ok::<u64, i32>(bytes),
            ret != 0 ==> r == Err::<u64, i32>(ret),
    {
        crate::error::status_to_result(ret, bytes)
    }

    /// Bytes sent on all interfaces.
    pub fn get_all_tx_bytes(ret: i32, bytes: u64) -> (r: Result<u64, i32>)
        ensures
            ret == 0 ==> r == Ok::<u64, i32>(bytes),
            ret != 0 ==> r == Err::<u64, i32>(ret),
    {
        crate::error::status_to_result(ret, bytes)
    }

    /// Bytes received on cellular networks.
    pub fn get_cellular_rx_bytes(ret: i32, bytes: u64) -> (r: Result<u64, i32>)
        ensures
            ret == 0 ==> r == Ok::<u64, i32>(bytes),
            ret != 0 ==> r == Err::<u64, i32>(ret),
    {
        crate::error::status_to_result(ret, bytes)
    }

    /// Bytes sent on cellular networks.
    pub fn get_cellular_tx_bytes(ret: i32, bytes: u64) -> (r: Result<u64, i32>)
        ensures
            ret == 0 ==> r == Ok::<u64, i32>(bytes),
            ret != 0 ==> r == Err::<u64, i32>(ret),
    {
        crate::error::status_to_result(ret, bytes)
    }

    /// Bytes received on an interface.
    pub fn get_iface_rx_bytes(ret: i32, bytes: u64) -> (r: Result<u64, i32>)
        ensures
            ret == 0 ==> r == Ok::<u64, i32>(bytes),
            ret != 0 ==> r == Err::<u64, i32>(ret),
    {
        crate::error::status_to_result(ret, bytes)
    }

    /// Bytes sent on an interface.
    pub fn get_iface_tx_bytes(ret: i32, bytes: u64) -> (r: Result<u64, i32>)
        ensures
            ret == 0 ==> r == Ok::<u64, i32>(bytes),
            ret != 0 ==> r == Err::<u64, i32>(ret),
    {
        crate::error::status_to_result(ret, bytes)
    }

    /// Bytes an application received.
    pub fn get_uid_rx_bytes(ret: i32, bytes: u64) -> (r: Result<u64, i32>)
        ensures
            ret == 0 ==> r == Ok::<u64, i32>(bytes),
            ret != 0 ==> r == Err::<u64, i32>(ret),
    {
        crate::error::status_to_result(ret, bytes)
    }

    /// Bytes an application sent.
    pub fn get_uid_tx_bytes(ret: i32, bytes: u64) -> (r: Result<u64, i32>)
        ensures
            ret == 0 ==> r == Ok::<u64, i32>(bytes),
            ret != 0 ==> r == Err::<u64, i32>(ret),
    {
        crate::error::status_to_result(ret, bytes)
    }

    /// Bytes a socket received.
    pub fn get_sockfd_rx_bytes(ret: i32, bytes: u64) -> (r: Result<u64, i32>)
        ensures
            ret == 0 ==> r == Ok::<u64, i32>(bytes),
            ret != 0 ==> r == Err::<u64, i32>(ret),
    {
        crate::error::status_to_result(ret, bytes)
    }

    /// Bytes a socket sent.
    pub fn get_sockfd_tx_bytes(ret: i32, bytes: u64) -> (r: Result<u64, i32>)
        ensures
            ret == 0 ==> r == Ok::<u64, i32>(bytes),
            ret != 0 ==> r == Err::<u64, i32>(ret),
    {
        crate::error::status_to_result(ret, bytes)
    }

    /// Traffic on an interface in a time window.
    pub fn get_traffic_stats_by_iface(ret: i32, info: NetStatsInfo) -> (r: Result<NetStatsInfo, i32>)
        ensures
            ret == 0 ==> r == Ok::<NetStatsInfo, i32>(info),
            ret != 0 ==> r == Err::<NetStatsInfo, i32>(ret),
    {
        crate::error::status_to_result(ret, info)
    }

    /// An application's traffic on an interface in a time window.
    pub fn get_traffic_stats_by_uid(ret: i32, info: NetStatsInfo) -> (r: Result<NetStatsInfo, i32>)
        ensures
            ret == 0 ==> r == Ok::<NetStatsInfo, i32>(info),
            ret != 0 ==> r == Err::<NetStatsInfo, i32>(ret),
    {
        crate::error::status_to_result(ret, info)
    }

    /// Traffic of each application on a network.
    pub fn get_traffic_stats_by_network(ret: i32, pairs: Vec<AniUidNetStatsInfoPair>) -> (r: Result<
        Vec<AniUidNetStatsInfoPair>,
        i32,
    >)
        ensures
            ret == 0 ==> r is Ok && r->Ok_0@ == pairs@,
            ret != 0 ==> r is Err && r->Err_0 == ret,
    {
        crate::error::status_to_result(ret, pairs)
    }

    /// An application's traffic on a network, window by window.
    pub fn get_traffic_stats_by_uid_network(ret: i32, items: Vec<AniNetStatsInfoSequenceItem>) -> (r:
        Result<Vec<AniNetStatsInfoSequenceItem>, i32>)
        ensures
            ret == 0 ==> r is Ok && r->Ok_0@ == items@,
            ret != 0 ==> r is Err && r->Err_0 == ret,
    {
        crate::error::status_to_result(ret, items)
    }
}

/// A byte count as the managed side receives it: the unsigned count read as
/// a signed 64-bit integer, and a non-zero status as its business error.
pub fn to_managed_count(r: Result<u64, i32>) -> (res: Result<i64, BusinessError>)
    ensures
        r is Ok ==> res == Ok::<i64, BusinessError>(r->Ok_0 as i64),
        r is Err ==> res is Err && res->Err_0.code == r->Err_0 && res->Err_0.msg@ == business_message(
            r->Err_0,
        ),
{
    match r {
        Ok(v) => Ok(v as i64),
        Err(code) => Err(convert_to_business_error(code)),
    }
}

/// The service's answer to `get_all_rx_bytes` as the managed side receives it.
pub fn get_all_rx_bytes(ret: i32, bytes: u64) -> (r: Result<i64, BusinessError>)
    ensures
        ret == 0 ==> r == Ok::<i64, BusinessError>(bytes as i64),
        ret != 0 ==> r is Err && r->Err_0.code == ret && r->Err_0.msg@ == business_message(ret),
{
    to_managed_count(NetStatsClient::get_all_rx_bytes(ret, bytes))
}

/// The service's answer to `get_all_tx_bytes` as the managed side receives it.
pub fn get_all_tx_bytes(ret: i32, bytes: u64) -> (r: Result<i64, BusinessError>)
    ensures
        ret == 0 ==> r == Ok::<i64, BusinessError>(bytes as i64),
        ret != 0 ==> r is Err && r->Err_0.code == ret && r->Err_0.msg@ == business_message(ret),
{
    to_managed_count(NetStatsClient::get_all_tx_bytes(ret, bytes))
}

/// The service's answer to `get_cellular_rx_bytes` as the managed side receives it.
pub fn get_cellular_rx_bytes(ret: i32, bytes: u64) -> (r: Result<i64, BusinessError>)
    ensures
        ret == 0 ==> r == Ok::<i64, BusinessError>(bytes as i64),
        ret != 0 ==> r is Err && r->Err_0.code == ret && r->Err_0.msg@ == business_message(ret),
{
    to_managed_count(NetStatsClient::get_cellular_rx_bytes(ret, bytes))
}

/// The service's answer to `get_cellular_tx_bytes` as the managed side receives it.
pub fn get_cellular_tx_bytes(ret: i32, bytes: u64) -> (r: Result<i64, BusinessError>)
    ensures
        ret == 0 ==> r == Ok::<i64, BusinessError>(bytes as i64),
        ret != 0 ==> r is Err && r->Err_0.code == ret && r->Err_0.msg@ == business_message(ret),
{
    to_managed_count(NetStatsClient::get_cellular_tx_bytes(ret, bytes))
}

/// The service's answer to `get_uid_rx_bytes` as the managed side receives it.
pub fn get_uid_rx_bytes(ret: i32, bytes: u64) -> (r: Result<i64, BusinessError>)
    ensures
        ret == 0 ==> r == Ok::<i64, BusinessError>(bytes as i64),
        ret != 0 ==> r is Err && r->Err_0.code == ret && r->Err_0.msg@ == business_message(ret),
{
    to_managed_count(NetStatsClient::get_uid_rx_bytes(ret, bytes))
}

/// The service's answer to `get_uid_tx_bytes` as the managed side receives it.
pub fn get_uid_tx_bytes(ret: i32, bytes: u64) -> (r: Result<i64, BusinessError>)
    ensures
        ret == 0 ==> r == Ok::<i64, BusinessError>(bytes as i64),
        ret != 0 ==> r is Err && r->Err_0.code == ret && r->Err_0.msg@ == business_message(ret),
{
    to_managed_count(NetStatsClient::get_uid_tx_bytes(ret, bytes))
}

/// The service's answer to `get_sockfd_rx_bytes` as the managed side receives it.
pub fn get_sockfd_rx_bytes(ret: i32, bytes: u64) -> (r: Result<i64, BusinessError>)
    ensures
        ret == 0 ==> r == Ok::<i64, BusinessError>(bytes as i64),
        ret != 0 ==> r is Err && r->Err_0.code == ret && r->Err_0.msg@ == business_message(ret),
{
    to_managed_count(NetStatsClient::get_sockfd_rx_bytes(ret, bytes))
}

/// The service's answer to `get_sockfd_tx_bytes` as the managed side receives it.
pub fn get_sockfd_tx_bytes(ret: i32, bytes: u64) -> (r: Result<i64, BusinessError>)
    ensures
        ret == 0 ==> r == Ok::<i64, BusinessError>(bytes as i64),
        ret != 0 ==> r is Err && r->Err_0.code == ret && r->Err_0.msg@ == business_message(ret),
{
    to_managed_count(NetStatsClient::get_sockfd_tx_bytes(ret, bytes))
}

/// The service's answer to `get_traffic_stats_by_iface` as the managed side
/// receives it.
pub fn get_traffic_stats_by_iface(ret: i32, info: NetStatsInfo) -> (r: Result<
    NetStatsInfo,
    BusinessError,
>)
    ensures
        ret == 0 ==> r is Ok && r->Ok_0 == info,
        ret != 0 ==> r is Err && r->Err_0.code == ret && r->Err_0.msg@ == business_message(ret),
{
    crate::connection::to_business_result(NetStatsClient::get_traffic_stats_by_iface(ret, info))
}

/// The service's answer to `get_traffic_stats_by_uid` as the managed side
/// receives it.
pub fn get_traffic_stats_by_uid(ret: i32, info: NetStatsInfo) -> (r: Result<
    NetStatsInfo,
    BusinessError,
>)
    ensures
        ret == 0 ==> r is Ok && r->Ok_0 == info,
        ret != 0 ==> r is Err && r->Err_0.code == ret && r->Err_0.msg@ == business_message(ret),
{
    crate::connection::to_business_result(NetStatsClient::get_traffic_stats_by_uid(ret, info))
}

/// The service's answer to `get_traffic_stats_by_uid_network` as the managed
/// side receives it.
pub fn get_traffic_stats_by_uid_network(ret: i32, items: Vec<AniNetStatsInfoSequenceItem>) -> (r:
    Result<Vec<AniNetStatsInfoSequenceItem>, BusinessError>)
    ensures
        ret == 0 ==> r is Ok && r->Ok_0@ == items@,
        ret != 0 ==> r is Err && r->Err_0.code == ret && r->Err_0.msg@ == business_message(ret),
{
    crate::connection::to_business_result(NetStatsClient::get_traffic_stats_by_uid_network(ret, items))
}


/// Whether some pair of `s` has `uid`.
pub open spec fn has_uid(s: Seq<AniUidNetStatsInfoPair>, uid: i32) -> bool {
    exists|i: int| 0 <= i < s.len() && s[i].uid == uid
}

/// Whether `info` is the traffic of the last pair of `s` with `uid`.
pub open spec fn is_last_for(s: Seq<AniUidNetStatsInfoPair>, uid: i32, info: NetStatsInfo) -> bool {
    exists|i: int|
        0 <= i < s.len() && s[i].uid == uid && s[i].net_stats_info == info && forall|j: int|
            i < j < s.len() ==> s[j].uid != uid
}

/// The map from application id to traffic: its keys are the uids of the
/// pairs, and each holds the traffic of the last pair with that uid.
pub fn uid_stats_map(pairs: &Vec<AniUidNetStatsInfoPair>) -> (r: HashMap<i32, NetStatsInfo>)
    ensures
        forall|k: i32| r@.contains_key(k) <==> has_uid(pairs@, k),
        forall|k: i32| r@.contains_key(k) ==> is_last_for(pairs@, k, r@[k]),
{
    broadcast use vstd::std_specs::hash::group_hash_axioms;

    let mut out: HashMap<i32, NetStatsInfo> = HashMap::new();
    let mut i: usize = 0;
    while i < pairs.len()
        invariant
            i <= pairs@.len(),
            forall|k: i32| out@.contains_key(k) <==> has_uid(pairs@.subrange(0, i as int), k),
            forall|k: i32|
                out@.contains_key(k) ==> is_last_for(pairs@.subrange(0, i as int), k, out@[k]),
        decreases pairs@.len() - i,
    {
        let p = pairs[i];
        let ghost pre = pairs@.subrange(0, i as int);
        let ghost now = pairs@.subrange(0, i + 1);
        let ghost old_out = out@;
        out.insert(p.uid, p.net_stats_info);
        proof {
            assert(now[i as int] == p);
            assert forall|k: i32| out@.contains_key(k) <==> has_uid(now, k) by {
                if k == p.uid {
                    assert(now[i as int].uid == k);
                } else {
                    if has_uid(now, k) {
                        let w = choose|w: int| 0 <= w < now.len() && now[w].uid == k;
                        assert(w < i);
                        assert(pre[w] == now[w]);
                    }
                    if has_uid(pre, k) {
                        let w = choose|w: int| 0 <= w < pre.len() && pre[w].uid == k;
                        assert(now[w] == pre[w]);
                    }
                }
            }
            assert forall|k: i32| out@.contains_key(k) implies is_last_for(now, k, out@[k]) by {
                if k == p.uid {
                    assert(now[i as int].uid == k && now[i as int].net_stats_info == out@[k]);
                } else {
                    assert(old_out.contains_key(k));
                    let w = choose|w: int|
                        0 <= w < pre.len() && pre[w].uid == k && pre[w].net_stats_info == old_out[k]
                            && forall|j: int| w < j < pre.len() ==> pre[j].uid != k;
                    assert(now[w] == pre[w]);
                    assert forall|j: int| w < j < now.len() implies now[j].uid != k by {
                        if j < pre.len() {
                            assert(now[j] == pre[j]);
                        }
                    }
                }
            }
        }
        i = i + 1;
    }
    assert(pairs@.subrange(0, pairs@.len() as int) =~= pairs@);
    out
}

/// The service's answer to `get_traffic_stats_by_network` as the managed
/// side receives it: a map from application id to its last reported
/// traffic.
pub fn get_traffic_stats_by_network(ret: i32, pairs: Vec<AniUidNetStatsInfoPair>) -> (r: Result<
    HashMap<i32, NetStatsInfo>,
    BusinessError,
>)
    ensures
        ret == 0 ==> r is Ok,
        ret == 0 ==> forall|k: i32| r->Ok_0@.contains_key(k) <==> has_uid(pairs@, k),
        ret == 0 ==> forall|k: i32|
            r->Ok_0@.contains_key(k) ==> is_last_for(pairs@, k, r->Ok_0@[k]),
        ret != 0 ==> r is Err && r->Err_0.code == ret && r->Err_0.msg@ == business_message(ret),
{
    match NetStatsClient::get_traffic_stats_by_network(ret, pairs) {
        Ok(v) => Ok(uid_stats_map(&v)),
        Err(code) => Err(convert_to_business_error(code)),
    }
}

} // verus!
