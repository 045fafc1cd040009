//! Per-message step functions of the two bridge loops.
//!
//! The loops themselves wait on sockets and a broker connection, which is
//! the caller's business; each received message is handed to one of the
//! functions here, and the returned plan says exactly what to send where.

use vstd::prelude::*;
use vstd::string::*;

use crate::codec::{encode_spec, hass_arg_to_osc, int_to_dec_string, osc_arg_to_hass, spec_decode};
use crate::discovery::{discovery_payload, discovery_payload_of};
use crate::entity::{config_topic_of, has_segment_char};
use crate::numtext::int_text_of;
use crate::registry::{get_or_register_spec, EntityRegistry};
use crate::value::{
    classify, clamp_int, clamp_int_spec, kind_of, ArgModel, BridgeError, OscArg, OscValue,
    ValueModel,
};

verus! {

/// The supported value a raw argument carries.
pub open spec fn arg_value(a: ArgModel) -> ValueModel
    recommends
        !(a is Unsupported),
{
    match a {
        ArgModel::Bool(b) => ValueModel::Bool(b),
        ArgModel::Int(i) => ValueModel::Int(i),
        ArgModel::Float(s) => ValueModel::Float(s),
        ArgModel::Unsupported => arbitrary(),
    }
}

/// One publication to the hub's broker.
pub struct MqttPublish {
    pub topic: String,
    pub payload: String,
    pub qos: i32,
}

/// What one control-protocol message amounts to on the hub side: the
/// discovery record when this message registered its entity, and the
/// value reported on the entity's state topic.
pub struct OscPlan {
    pub discovery: Option<MqttPublish>,
    pub state: MqttPublish,
}

/// Handles one inbound control-protocol message: registers the address on
/// first sight and reports the received value as the entity's state.
///
/// The discovery record is part of the plan exactly when this call
/// registered the address, so following every plan publishes discovery at
/// most once per address.
pub fn handle_osc_message(reg: &mut EntityRegistry, address: &str, arg: OscArg) -> (r: Result<
    OscPlan,
    BridgeError,
>)
    requires
        old(reg).wf(),
        has_segment_char(address@),
    ensures
        final(reg).wf(),
        match r {
            Err(e) => arg@ is Unsupported && e == BridgeError::UnsupportedValueKind && final(reg)@
                == old(reg)@,
            Ok(plan) => !(arg@ is Unsupported) && ({
                let v = arg_value(arg@);
                let (m1, em, fresh) = get_or_register_spec(old(reg)@, address@, kind_of(v));
                &&& final(reg)@ == m1
                &&& match plan.discovery {
                    Some(d) => fresh && d.topic@ == config_topic_of(address@, kind_of(v))
                        && d.payload@ == discovery_payload_of(em) && d.qos == 1,
                    None => !fresh,
                }
                &&& plan.state.topic@ == em.state_topic
                &&& plan.state.payload@ == encode_spec(v)
                &&& plan.state.qos == 0
            }),
        },
{
    let value = match classify(arg) {
        Ok(v) => v,
        Err(e) => {
            return Err(e);
        },
    };
    let kind = value.kind();
    let (entity, fresh) = reg.get_or_register(address, kind);
    let discovery = if fresh {
        Some(
            MqttPublish {
                topic: entity.config_topic(),
                payload: discovery_payload(&entity),
                qos: 1,
            },
        )
    } else {
        None
    };
    let state = MqttPublish {
        topic: entity.state_topic.clone(),
        payload: osc_arg_to_hass(&value),
        qos: 0,
    };
    Ok(OscPlan { discovery, state })
}

/// The control-protocol send a matched hub command amounts to.
pub enum CommandAction {
    /// Send the boolean to the address; the echoed state is `ON`/`OFF`.
    SendBool { value: bool, state_payload: String },
    /// Send the integer, already clamped to `[0, 255]`; the echoed state
    /// is its decimal text.
    SendInt { value: i32, state_payload: String },
    /// Send the floating-point value: the caller parses the text, clamps
    /// the number to `[-1, 1]`, sends it, and echoes the clamped value's
    /// text as state.
    SendFloat { text: String },
}

/// Where and what to send for one matched hub command, and the state
/// topic on which the value actually sent is echoed back.
pub struct CommandPlan {
    pub address: String,
    pub state_topic: String,
    pub action: CommandAction,
}

/// Handles one inbound pub/sub message: a message whose topic is no
/// registered entity's command topic is discarded without effect; a
/// matched message is decoded, clamped, and turned into a send plan, or
/// rejected with a parse error when its payload decodes to nothing.
pub fn handle_command(reg: &EntityRegistry, topic: &str, payload: String) -> (r: Result<
    Option<CommandPlan>,
    BridgeError,
>)
    requires
        reg.wf(),
    ensures
        match r {
            Ok(None) => forall|a: Seq<char>|
                #[trigger] reg@.contains_key(a) ==> reg@[a].command_topic != topic@,
            Ok(Some(plan)) => {
                &&& reg@.contains_key(plan.address@)
                &&& reg@[plan.address@].command_topic == topic@
                &&& plan.state_topic@ == reg@[plan.address@].state_topic
                &&& match plan.action {
                    CommandAction::SendBool { value, state_payload } => spec_decode(payload@)
                        == Some(ValueModel::Bool(value)) && state_payload@ == encode_spec(
                        ValueModel::Bool(value),
                    ),
                    CommandAction::SendInt { value, state_payload } => (match spec_decode(
                        payload@,
                    ) {
                        Some(ValueModel::Int(i)) => value as int == clamp_int_spec(i),
                        _ => false,
                    }) && state_payload@ == int_text_of(value as int),
                    CommandAction::SendFloat { text } => spec_decode(payload@) == Some(
                        ValueModel::Float(text@),
                    ),
                }
            },
            Err(e) => e == BridgeError::ParseError && spec_decode(payload@)
                == None::<ValueModel> && (exists|a: Seq<char>|
                #[trigger] reg@.contains_key(a) && reg@[a].command_topic == topic@),
        },
{
    let matched = reg.find_by_command_topic(topic);
    match matched {
        None => Ok(None),
        Some((address, entity)) => {
            let ghost a = address@;
            match hass_arg_to_osc(payload) {
                Err(e) => {
                    proof {
                        assert(reg@.contains_key(a) && reg@[a].command_topic == topic@);
                    }
                    Err(e)
                },
                Ok(v) => {
                    let action = match v {
                        OscValue::Bool(b) => CommandAction::SendBool {
                            value: b,
                            state_payload: if b {
                                String::from_str("ON")
                            } else {
                                String::from_str("OFF")
                            },
                        },
                        OscValue::Int(i) => {
                            let c = clamp_int(i);
                            CommandAction::SendInt {
                                value: c,
                                state_payload: int_to_dec_string(c),
                            }
                        },
                        OscValue::Float(t) => CommandAction::SendFloat { text: t },
                    };
                    Ok(Some(CommandPlan { address, state_topic: entity.state_topic, action }))
                },
            }
        },
    }
}

} // verus!
