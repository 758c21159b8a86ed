//! Writing connection records as managed objects, and handing connection
//! events to the callbacks registered for them.
use vstd::prelude::*;

use crate::callback::{Holders, InputVec};
use crate::compound::{lemma_extends_trans, lemma_extends_value};
use crate::connection::{
    net_bear_type_index, net_cap_index, ConnCallback, ConnectionProperties, LinkAddress,
    NetAddress, NetBearType, NetBlockStatusInfo, NetCap, NetCapabilities, NetCapabilityInfo,
    NetConnectionPropertyInfo, NetHandle, RouteInfo,
};
use crate::env::{AniEnv, AniRef, ManagedValue, STATUS_OUT_OF_REF};
use crate::error::AniError;
use crate::worker::WorkerQueue;

verus! {

/// A record that can be written as a managed object.
pub trait ToAniValue {
    /// How many references writing the record takes: with that much room,
    /// writing it succeeds.
    spec fn cost(&self) -> nat;

    /// Whether `h` reaches, in `env`, the managed form of `self`.
    spec fn encodes(&self, env: &AniEnv, h: u64) -> bool;

    /// The managed form stays while references and values are only added to.
    proof fn lemma_encodes_kept(&self, old: &AniEnv, new: &AniEnv, h: u64)
        requires
            old.wf(),
            new.keeps_refs(old),
            self.encodes(old, h),
        ensures
            self.encodes(new, h),
    ;

    /// Writes the record to `env`; writing only adds to the environment, and
    /// the handle returned reaches the new object.
    fn to_ani_value(&self, env: &mut AniEnv) -> (r: Result<AniRef, AniError>)
        requires
            old(env).wf(),
        ensures
            final(env).wf(),
            final(env).extends(old(env)),
            r is Ok ==> final(env).value(r->Ok_0.inner) is Some,
            r is Ok ==> self.encodes(final(env), r->Ok_0.inner),
            final(env).refs@.len() <= old(env).refs@.len() + self.cost(),
            old(env).has_room(self.cost() as int) ==> r is Ok,
            r is Err ==> r->Err_0.status == STATUS_OUT_OF_REF,
    ;
}

/// The references that writing every record of `s` takes.
pub open spec fn seq_cost<T: ToAniValue>(s: Seq<T>) -> nat
    decreases s.len(),
{
    if s.len() == 0 {
        0
    } else {
        seq_cost(s.drop_last()) + s.last().cost()
    }
}

/// A prefix of records costs no more than all of them.
pub proof fn lemma_seq_cost_prefix<T: ToAniValue>(s: Seq<T>, i: int)
    requires
        0 <= i <= s.len(),
    ensures
        seq_cost(s.subrange(0, i)) <= seq_cost(s),
    decreases s.len(),
{
    if i < s.len() {
        assert(s.drop_last().subrange(0, i) =~= s.subrange(0, i));
        lemma_seq_cost_prefix(s.drop_last(), i);
    } else {
        assert(s.subrange(0, i) =~= s);
    }
}

/// Whether `h` reaches an object of `class` in `env`.
pub open spec fn object_of_class(env: &AniEnv, h: u64, class: Seq<char>) -> bool {
    &&& env.value(h) is Some
    &&& env.value(h)->Some_0 is Object
    &&& env.value(h)->Some_0->class@ == class
}

/// Whether `h` reaches the item at `index` of the enum `name` in `env`.
pub open spec fn enum_item_of(env: &AniEnv, h: u64, name: Seq<char>, index: usize) -> bool {
    &&& env.value(h) is Some
    &&& env.value(h)->Some_0 is EnumItem
    &&& env.value(h)->Some_0->enum_name@ == name
    &&& env.value(h)->Some_0->index == index
}

/// The value zero stands for where an optional number is absent.
pub open spec fn or_zero(o: Option<i32>) -> i32 {
    match o {
        Some(v) => v,
        None => 0,
    }
}

/// Writes an address as an object of three fields: the address, the family
/// and the port, zero standing for an unknown family or port.
pub fn net_address_to_ani(env: &mut AniEnv, a: &NetAddress) -> (r: Result<AniRef, AniError>)
    requires
        old(env).wf(),
    ensures
        final(env).wf(),
        final(env).extends(old(env)),
        r is Ok <==> old(env).has_room(4),
        final(env).refs@.len() <= old(env).refs@.len() + 4,
        r is Err ==> r->Err_0.status == STATUS_OUT_OF_REF,
        r is Ok ==> {
            let v = final(env).value(r->Ok_0.inner)->Some_0;
            &&& final(env).value(r->Ok_0.inner) is Some
            &&& v is Object
            &&& v->class@ == "@ohos.net.connection.connection.NetAddressInner"@
            &&& v->fields@.len() == 3
            &&& final(env).value(v->fields@[0].inner) == Some(ManagedValue::Str(a.address))
            &&& final(env).value(v->fields@[1].inner) == Some(ManagedValue::Int(or_zero(a.family)))
            &&& final(env).value(v->fields@[2].inner) == Some(ManagedValue::Int(or_zero(a.port)))
        },
{
    let ghost e0 = *env;
    if env.refs.len() >= crate::env::MAX_REFS - 3 {
        return Err(AniError::new("net_address_to_ani", crate::env::STATUS_OUT_OF_REF));
    }
    let field1 = env.new_local(ManagedValue::Str(a.address.clone()))?;
    let ghost e1 = *env;
    let family = match a.family {
        Some(v) => v,
        None => 0,
    };
    let port = match a.port {
        Some(v) => v,
        None => 0,
    };
    let field2 = env.new_local(ManagedValue::Int(family))?;
    let ghost e2 = *env;
    let field3 = env.new_local(ManagedValue::Int(port))?;
    let ghost e3 = *env;
    proof {
        reveal_strlit("@ohos.net.connection.connection.NetAddressInner");
    }
    let r = env.new_object(
        String::from_str("@ohos.net.connection.connection.NetAddressInner"),
        vec![field1, field2, field3],
    );
    proof {
        lemma_extends_trans(&e0, &e1, &e2);
        lemma_extends_trans(&e0, &e2, &e3);
        lemma_extends_trans(&e0, &e3, env);
        lemma_extends_value(&e2, &e1, field1.inner);
        lemma_extends_value(&e3, &e2, field1.inner);
        lemma_extends_value(&e3, &e2, field2.inner);
        lemma_extends_value(env, &e3, field1.inner);
        lemma_extends_value(env, &e3, field2.inner);
        lemma_extends_value(env, &e3, field3.inner);
    }
    r
}

/// Writes an object of `class` with the given fields after the writes that
/// produced them.
fn object_after(env: &mut AniEnv, class: &str, fields: Vec<AniRef>) -> (r: Result<AniRef, AniError>)
    requires
        old(env).wf(),
    ensures
        final(env).wf(),
        final(env).extends(old(env)),
        r is Ok ==> final(env).value(r->Ok_0.inner) == Some(
            ManagedValue::Object { class: final(env).value(r->Ok_0.inner)->Some_0->class, fields },
        ),
        r is Ok ==> final(env).value(r->Ok_0.inner)->Some_0->class@ == class@,
        final(env).refs@.len() <= old(env).refs@.len() + 1,
        old(env).has_room(1) ==> r is Ok,
        r is Err ==> r->Err_0.status == STATUS_OUT_OF_REF,
{
    env.new_object(String::from_str(class), fields)
}

impl ToAniValue for NetAddress {
    open spec fn cost(&self) -> nat {
        4
    }

    open spec fn encodes(&self, env: &AniEnv, h: u64) -> bool {
        object_of_class(env, h, "@ohos.net.connection.connection.NetAddressInner"@)
    }

    proof fn lemma_encodes_kept(&self, old: &AniEnv, new: &AniEnv, h: u64) {
        crate::callback::lemma_kept_value(new, old, h);
    }

    fn to_ani_value(&self, env: &mut AniEnv) -> (r: Result<AniRef, AniError>) {
        net_address_to_ani(env, self)
    }
}

impl ToAniValue for NetHandle {
    open spec fn cost(&self) -> nat {
        2
    }

    open spec fn encodes(&self, env: &AniEnv, h: u64) -> bool {
        object_of_class(env, h, "@ohos.net.connection.connection.NetHandleInner"@)
    }

    proof fn lemma_encodes_kept(&self, old: &AniEnv, new: &AniEnv, h: u64) {
        crate::callback::lemma_kept_value(new, old, h);
    }

    fn to_ani_value(&self, env: &mut AniEnv) -> (r: Result<AniRef, AniError>) {
        let ghost e0 = *env;
        let id = env.new_local(ManagedValue::Int(self.net_id))?;
        let ghost e1 = *env;
        let r = object_after(env, "@ohos.net.connection.connection.NetHandleInner", vec![id]);
        proof {
            lemma_extends_trans(&e0, &e1, env);
        }
        r
    }
}

impl ToAniValue for LinkAddress {
    open spec fn cost(&self) -> nat {
        6
    }

    open spec fn encodes(&self, env: &AniEnv, h: u64) -> bool {
        object_of_class(env, h, "@ohos.net.connection.connection.LinkAddressInner"@)
    }

    proof fn lemma_encodes_kept(&self, old: &AniEnv, new: &AniEnv, h: u64) {
        crate::callback::lemma_kept_value(new, old, h);
    }

    fn to_ani_value(&self, env: &mut AniEnv) -> (r: Result<AniRef, AniError>) {
        let ghost e0 = *env;
        let field1 = net_address_to_ani(env, &self.address)?;
        let ghost e1 = *env;
        let field2 = env.new_local(ManagedValue::Int(self.prefix_length))?;
        let ghost e2 = *env;
        let r = object_after(env, "@ohos.net.connection.connection.LinkAddressInner", vec![field1, field2]);
        proof {
            lemma_extends_trans(&e0, &e1, &e2);
            lemma_extends_trans(&e0, &e2, env);
        }
        r
    }
}

impl ToAniValue for RouteInfo {
    open spec fn cost(&self) -> nat {
        14
    }

    open spec fn encodes(&self, env: &AniEnv, h: u64) -> bool {
        object_of_class(env, h, "@ohos.net.connection.connection.RouteInfoInner"@)
    }

    proof fn lemma_encodes_kept(&self, old: &AniEnv, new: &AniEnv, h: u64) {
        crate::callback::lemma_kept_value(new, old, h);
    }

    fn to_ani_value(&self, env: &mut AniEnv) -> (r: Result<AniRef, AniError>) {
        let ghost e0 = *env;
        let field1 = env.new_local(ManagedValue::Str(self.iface.clone()))?;
        let ghost e1 = *env;
        let field2 = self.destination.to_ani_value(env)?;
        let ghost e2 = *env;
        let field3 = net_address_to_ani(env, &self.gateway)?;
        let ghost e3 = *env;
        let field4 = env.new_local(ManagedValue::Boolean(self.has_gateway))?;
        let ghost e4 = *env;
        let field5 = env.new_local(ManagedValue::Boolean(self.is_default_route))?;
        let ghost e5 = *env;
        let r = object_after(
            env,
            "@ohos.net.connection.connection.RouteInfoInner",
            vec![field1, field2, field3, field4, field5],
        );
        proof {
            lemma_extends_trans(&e0, &e1, &e2);
            lemma_extends_trans(&e0, &e2, &e3);
            lemma_extends_trans(&e0, &e3, &e4);
            lemma_extends_trans(&e0, &e4, &e5);
            lemma_extends_trans(&e0, &e5, env);
        }
        r
    }
}

impl ToAniValue for NetCap {
    open spec fn cost(&self) -> nat {
        1
    }

    open spec fn encodes(&self, env: &AniEnv, h: u64) -> bool {
        enum_item_of(env, h, "@ohos.net.connection.connection.NetCap"@, net_cap_index(*self))
    }

    proof fn lemma_encodes_kept(&self, old: &AniEnv, new: &AniEnv, h: u64) {
        crate::callback::lemma_kept_value(new, old, h);
    }

    fn to_ani_value(&self, env: &mut AniEnv) -> (r: Result<AniRef, AniError>) {
        let index = self.get_enum_index();
        env.new_enum_item_by_index(String::from_str("@ohos.net.connection.connection.NetCap"), index)
    }
}

impl ToAniValue for NetBearType {
    open spec fn cost(&self) -> nat {
        1
    }

    open spec fn encodes(&self, env: &AniEnv, h: u64) -> bool {
        enum_item_of(env, h, "@ohos.net.connection.connection.NetBearType"@, net_bear_type_index(*self))
    }

    proof fn lemma_encodes_kept(&self, old: &AniEnv, new: &AniEnv, h: u64) {
        crate::callback::lemma_kept_value(new, old, h);
    }

    fn to_ani_value(&self, env: &mut AniEnv) -> (r: Result<AniRef, AniError>) {
        let index = self.get_enum_index();
        env.new_enum_item_by_index(
            String::from_str("@ohos.net.connection.connection.NetBearType"),
            index,
        )
    }
}

/// Writes each record, then an array of references to them, in order.
pub fn vec_to_ani<T: ToAniValue>(env: &mut AniEnv, items: &Vec<T>) -> (r: Result<AniRef, AniError>)
    requires
        old(env).wf(),
    ensures
        final(env).wf(),
        final(env).extends(old(env)),
        r is Ok ==> final(env).value(r->Ok_0.inner) is Some && final(env).value(
            r->Ok_0.inner,
        )->Some_0 is RefArray && final(env).value(r->Ok_0.inner)->Some_0->RefArray_0@.len()
            == items@.len(),
        final(env).refs@.len() <= old(env).refs@.len() + seq_cost(items@) + 1,
        old(env).has_room(seq_cost(items@) + 1int) ==> r is Ok,
        r is Err ==> r->Err_0.status == STATUS_OUT_OF_REF,
        r is Ok ==> forall|i: int|
            0 <= i < items@.len() ==> items@[i].encodes(
                final(env),
                #[trigger] final(env).value(r->Ok_0.inner)->Some_0->RefArray_0@[i].inner,
            ),
{
    let ghost e0 = *env;
    let mut hs: Vec<AniRef> = Vec::new();
    let mut i: usize = 0;
    while i < items.len()
        invariant
            env.wf(),
            e0.wf(),
            e0 == *old(env),
            env.extends(&e0),
            i <= items@.len(),
            hs@.len() == i,
            forall|j: int| 0 <= j < i ==> items@[j].encodes(env, #[trigger] hs@[j].inner),
            env.refs@.len() <= e0.refs@.len() + seq_cost(items@.subrange(0, i as int)),
        decreases items@.len() - i,
    {
        let ghost before = *env;
        let h = items[i].to_ani_value(env);
        proof {
            lemma_extends_trans(&e0, &before, env);
            assert(items@.subrange(0, i + 1).drop_last() =~= items@.subrange(0, i as int));
            lemma_seq_cost_prefix(items@, i + 1);
        }
        let h = h?;
        proof {
            assert forall|j: int| 0 <= j < i implies items@[j].encodes(env, #[trigger] hs@[j].inner) by {
                items@[j].lemma_encodes_kept(&before, env, hs@[j].inner);
            }
        }
        hs.push(h);
        i = i + 1;
    }
    let ghost before = *env;
    let ghost handles = hs@;
    proof {
        assert(items@.subrange(0, items@.len() as int) =~= items@);
    }
    let r = env.new_local(ManagedValue::RefArray(hs));
    proof {
        lemma_extends_trans(&e0, &before, env);
        if r is Ok {
            assert forall|j: int| 0 <= j < items@.len() implies items@[j].encodes(env, #[trigger] handles[j].inner) by {
                items@[j].lemma_encodes_kept(&before, env, handles[j].inner);
            }
        }
    }
    r
}

impl ToAniValue for ConnectionProperties {
    open spec fn cost(&self) -> nat {
        7 + seq_cost(self.link_addresses@) + seq_cost(self.dnses@) + seq_cost(self.routes@)
    }

    open spec fn encodes(&self, env: &AniEnv, h: u64) -> bool {
        object_of_class(env, h, "@ohos.net.connection.connection.ConnectionPropertiesInner"@)
    }

    proof fn lemma_encodes_kept(&self, old: &AniEnv, new: &AniEnv, h: u64) {
        crate::callback::lemma_kept_value(new, old, h);
    }

    fn to_ani_value(&self, env: &mut AniEnv) -> (r: Result<AniRef, AniError>) {
        let ghost e0 = *env;
        let field1 = env.new_local(ManagedValue::Str(self.interface_name.clone()))?;
        let ghost e1 = *env;
        let field2 = env.new_local(ManagedValue::Str(self.domains.clone()))?;
        let ghost e2 = *env;
        let field3 = vec_to_ani(env, &self.link_addresses)?;
        let ghost e3 = *env;
        let field4 = vec_to_ani(env, &self.dnses)?;
        let ghost e4 = *env;
        let field5 = vec_to_ani(env, &self.routes)?;
        let ghost e5 = *env;
        let field6 = env.new_local(ManagedValue::Int(self.mtu))?;
        let ghost e6 = *env;
        let r = object_after(
            env,
            "@ohos.net.connection.connection.ConnectionPropertiesInner",
            vec![field1, field2, field3, field4, field5, field6],
        );
        proof {
            lemma_extends_trans(&e0, &e1, &e2);
            lemma_extends_trans(&e0, &e2, &e3);
            lemma_extends_trans(&e0, &e3, &e4);
            lemma_extends_trans(&e0, &e4, &e5);
            lemma_extends_trans(&e0, &e5, &e6);
            lemma_extends_trans(&e0, &e6, env);
        }
        r
    }
}

impl ToAniValue for NetCapabilities {
    open spec fn cost(&self) -> nat {
        5 + match self.network_cap {
            Some(c) => seq_cost(c@),
            None => 0,
        } + seq_cost(self.bearer_types@)
    }

    open spec fn encodes(&self, env: &AniEnv, h: u64) -> bool {
        object_of_class(env, h, "@ohos.net.connection.connection.NetCapabilitiesInner"@)
    }

    proof fn lemma_encodes_kept(&self, old: &AniEnv, new: &AniEnv, h: u64) {
        crate::callback::lemma_kept_value(new, old, h);
    }

    fn to_ani_value(&self, env: &mut AniEnv) -> (r: Result<AniRef, AniError>) {
        let ghost e0 = *env;
        let up = match self.link_up_bandwidth_kbps {
            Some(v) => v,
            None => 0,
        };
        let down = match self.link_down_bandwidth_kbps {
            Some(v) => v,
            None => 0,
        };
        let field1 = env.new_local(ManagedValue::Int(up))?;
        let ghost e1 = *env;
        let field2 = env.new_local(ManagedValue::Int(down))?;
        let ghost e2 = *env;
        let field3 = match &self.network_cap {
            Some(caps) => vec_to_ani(env, caps)?,
            None => vec_to_ani(env, &Vec::<NetCap>::new())?,
        };
        let ghost e3 = *env;
        let field4 = vec_to_ani(env, &self.bearer_types)?;
        let ghost e4 = *env;
        let r = object_after(
            env,
            "@ohos.net.connection.connection.NetCapabilitiesInner",
            vec![field1, field2, field3, field4],
        );
        proof {
            lemma_extends_trans(&e0, &e1, &e2);
            lemma_extends_trans(&e0, &e2, &e3);
            lemma_extends_trans(&e0, &e3, &e4);
            lemma_extends_trans(&e0, &e4, env);
        }
        r
    }
}

impl ToAniValue for NetBlockStatusInfo {
    open spec fn cost(&self) -> nat {
        4
    }

    open spec fn encodes(&self, env: &AniEnv, h: u64) -> bool {
        object_of_class(env, h, "@ohos.net.connection.connection.NetBlockStatusInfoInner"@)
    }

    proof fn lemma_encodes_kept(&self, old: &AniEnv, new: &AniEnv, h: u64) {
        crate::callback::lemma_kept_value(new, old, h);
    }

    fn to_ani_value(&self, env: &mut AniEnv) -> (r: Result<AniRef, AniError>) {
        let ghost e0 = *env;
        let field1 = self.net_handle.to_ani_value(env)?;
        let ghost e1 = *env;
        let field2 = env.new_local(ManagedValue::Boolean(self.blocked))?;
        let ghost e2 = *env;
        let r = object_after(
            env,
            "@ohos.net.connection.connection.NetBlockStatusInfoInner",
            vec![field1, field2],
        );
        proof {
            lemma_extends_trans(&e0, &e1, &e2);
            lemma_extends_trans(&e0, &e2, env);
        }
        r
    }
}

impl ToAniValue for NetCapabilityInfo {
    open spec fn cost(&self) -> nat {
        3 + self.net_cap.cost()
    }

    open spec fn encodes(&self, env: &AniEnv, h: u64) -> bool {
        object_of_class(env, h, "@ohos.net.connection.connection.NetCapabilityInfoInner"@)
    }

    proof fn lemma_encodes_kept(&self, old: &AniEnv, new: &AniEnv, h: u64) {
        crate::callback::lemma_kept_value(new, old, h);
    }

    fn to_ani_value(&self, env: &mut AniEnv) -> (r: Result<AniRef, AniError>) {
        let ghost e0 = *env;
        let field1 = self.net_handle.to_ani_value(env)?;
        let ghost e1 = *env;
        let field2 = self.net_cap.to_ani_value(env)?;
        let ghost e2 = *env;
        let r = object_after(
            env,
            "@ohos.net.connection.connection.NetCapabilityInfoInner",
            vec![field1, field2],
        );
        proof {
            lemma_extends_trans(&e0, &e1, &e2);
            lemma_extends_trans(&e0, &e2, env);
        }
        r
    }
}

impl ToAniValue for NetConnectionPropertyInfo {
    open spec fn cost(&self) -> nat {
        3 + self.connection_properties.cost()
    }

    open spec fn encodes(&self, env: &AniEnv, h: u64) -> bool {
        object_of_class(env, h, "@ohos.net.connection.connection.NetConnectionPropertyInfoInner"@)
    }

    proof fn lemma_encodes_kept(&self, old: &AniEnv, new: &AniEnv, h: u64) {
        crate::callback::lemma_kept_value(new, old, h);
    }

    fn to_ani_value(&self, env: &mut AniEnv) -> (r: Result<AniRef, AniError>) {
        let ghost e0 = *env;
        let field1 = self.net_handle.to_ani_value(env)?;
        let ghost e1 = *env;
        let field2 = self.connection_properties.to_ani_value(env)?;
        let ghost e2 = *env;
        let r = object_after(
            env,
            "@ohos.net.connection.connection.NetConnectionPropertyInfoInner",
            vec![field1, field2],
        );
        proof {
            lemma_extends_trans(&e0, &e1, &e2);
            lemma_extends_trans(&e0, &e2, env);
        }
        r
    }
}

/// An event of a connection, with what it reports.
pub enum ConnEvent {
    Available(NetHandle),
    BlockStatusChange(NetBlockStatusInfo),
    CapabilitiesChange(NetCapabilityInfo),
    ConnectionPropertiesChange(NetConnectionPropertyInfo),
    Lost(NetHandle),
    Unavailable,
}

impl InputVec for ConnEvent {
    open spec fn cost(&self) -> Option<nat> {
        match self {
            ConnEvent::Available(h) => Some(h.cost()),
            ConnEvent::BlockStatusChange(s) => Some(s.cost()),
            ConnEvent::CapabilitiesChange(c) => Some(c.cost()),
            ConnEvent::ConnectionPropertiesChange(p) => Some(p.cost()),
            ConnEvent::Lost(h) => Some(h.cost()),
            ConnEvent::Unavailable => Some(0),
        }
    }

    open spec fn encoded_by(&self, env: &AniEnv, args: Seq<AniRef>) -> bool {
        match self {
            ConnEvent::Unavailable => args.len() == 0,
            _ => args.len() == 1,
        }
    }

    proof fn lemma_encoding_kept(&self, old: &AniEnv, new: &AniEnv, args: Seq<AniRef>) {
        
    }

    fn input(&self, env: &mut AniEnv) -> (r: Result<Vec<AniRef>, AniError>) {
        match self {
            ConnEvent::Available(h) => Ok(vec![h.to_ani_value(env)?]),
            ConnEvent::BlockStatusChange(s) => Ok(vec![s.to_ani_value(env)?]),
            ConnEvent::CapabilitiesChange(c) => Ok(vec![c.to_ani_value(env)?]),
            ConnEvent::ConnectionPropertiesChange(p) => Ok(vec![p.to_ani_value(env)?]),
            ConnEvent::Lost(h) => Ok(vec![h.to_ani_value(env)?]),
            ConnEvent::Unavailable => Ok(Vec::new()),
        }
    }
}

/// The callback registered for the kind of `event`, if any.
pub open spec fn callback_for(cb: &ConnCallback, event: &ConnEvent) -> Option<crate::callback::GlobalRefCallback> {
    match event {
        ConnEvent::Available(_) => cb.on_net_available,
        ConnEvent::BlockStatusChange(_) => cb.on_net_block_status_change,
        ConnEvent::CapabilitiesChange(_) => cb.on_net_capabilities_change,
        ConnEvent::ConnectionPropertiesChange(_) => cb.on_net_connection_properties_change,
        ConnEvent::Lost(_) => cb.on_net_lost,
        ConnEvent::Unavailable => cb.on_net_unavailable,
    }
}

impl ConnCallback {
    /// Hands `event` to the dedicated worker for the callback registered for
    /// its kind; without one the event is dropped. The service is always
    /// answered with status zero.
    pub fn dispatch(&self, holders: &Holders, queue: &mut WorkerQueue<ConnEvent>, event: ConnEvent) -> (r: i32)
        requires
            callback_for(self, &event) is Some ==> holders.holds(callback_for(self, &event)->Some_0),
        ensures
            r == 0,
            callback_for(self, &event) is None ==> final(queue).pending@ == old(queue).pending@,
            callback_for(self, &event) is Some ==> {
                &&& final(queue).pending@.len() == old(queue).pending@.len() + 1
                &&& final(queue).pending@.drop_last() == old(queue).pending@
                &&& final(queue).pending@.last().input == event
                &&& final(queue).pending@.last().callback == holders.slots@[callback_for(
                    self,
                    &event,
                )->Some_0.slot as int].global
            },
    {
        let target = match &event {
            ConnEvent::Available(_) => &self.on_net_available,
            ConnEvent::BlockStatusChange(_) => &self.on_net_block_status_change,
            ConnEvent::CapabilitiesChange(_) => &self.on_net_capabilities_change,
            ConnEvent::ConnectionPropertiesChange(_) => &self.on_net_connection_properties_change,
            ConnEvent::Lost(_) => &self.on_net_lost,
            ConnEvent::Unavailable => &self.on_net_unavailable,
        };
        if let Some(cb) = target {
            cb.execute_collective(holders, queue, event);
        }
        0
    }
}

} // verus!
