//! The tagged sums of the exchange: each is one of several constructors,
//! told apart on the wire by the constructor ID in front.

#![allow(non_camel_case_types)]

/// The response to the first request, as a plain record
mod res_pq;
/// RSA public key
mod rsa_public_key;

use super::constructors::client_DH_inner_data;
use super::constructors::p_q_inner_data_dc;
use super::constructors::p_q_inner_data_temp_dc;
use super::constructors::resPQ;
use super::constructors::server_DH_inner_data;
use super::constructors::server_DH_params_ok;
use super::constructors::FactorizeError;
use crate::bignum::fits;
use crate::buffer::contents;
use crate::endian::le_bytes;
use crate::endian::lemma_le_bytes_len;
use crate::endian::lemma_pow256_values;
use crate::objects::base::lemma_parse_le_of_bytes;
use crate::objects::boxed::boxed_parse;
use crate::objects::boxed::lemma_boxed_round_trip;
use crate::objects::error::DeserializeError;
use crate::objects::reader::Reader;
use crate::objects::traits::Deserialize;
use crate::objects::traits::OptDeserialize;
use crate::objects::traits::RoundTrip;
use crate::objects::traits::Serialize;
use crate::objects::traits::Tagged;
use crate::objects::traits::TypeId;
use crate::prime::is_big;
use openssl::error::ErrorStack;
pub use res_pq::ResPq;
pub use rsa_public_key::is_offered;
pub use rsa_public_key::select_key;
pub use rsa_public_key::RSAPublicKey;
pub use rsa_public_key::RsaPublicKeyFields;
use vstd::prelude::*;

verus! {

/// The response type for function `req_pq_multi`.
#[derive(Clone, Debug)]
pub enum ResPQ {
    /// The one constructor of the type.
    ResPQ(Box<resPQ>),
}

impl Serialize for ResPQ {
    open spec fn wire(&self) -> Seq<u8> {
        match self {
            Self::ResPQ(n) => n.wire(),
        }
    }

    fn serialize(&self, writer: &mut Vec<u8>) {
        match self {
            Self::ResPQ(n) => n.serialize(writer),
        }
    }
}

impl OptDeserialize for ResPQ {
    type Value = <resPQ as Deserialize>::Value;

    open spec fn value(&self) -> Self::Value {
        match self {
            Self::ResPQ(n) => Deserialize::value(&**n),
        }
    }

    open spec fn opt_parse(input: Seq<u8>) -> Result<(Option<Self::Value>, nat), DeserializeError> {
        boxed_parse::<resPQ>(input, resPQ::constructor_id())
    }

    fn opt_deserialize<'a>(data: &mut Reader<'a>) -> (r: Result<Option<Self>, DeserializeError>) {
        match Box::<resPQ>::opt_deserialize(data) {
            Ok(Some(v)) => Ok(Some(Self::ResPQ(v))),
            Ok(None) => Ok(None),
            Err(e) => Err(e),
        }
    }
}

impl Tagged for ResPQ {
    open spec fn tag(&self) -> u32 {
        match self {
            Self::ResPQ(n) => n.tag(),
        }
    }

    proof fn starts_with_tag(&self) {
        match self {
            Self::ResPQ(n) => n.starts_with_tag(),
        }
    }
}

impl RoundTrip for ResPQ {
    open spec fn well_formed(&self) -> bool {
        match self {
            Self::ResPQ(n) => n.well_formed(),
        }
    }

    proof fn round_trip(&self, rest: Seq<u8>) {
        match self {
            Self::ResPQ(n) => {
                lemma_boxed_round_trip::<resPQ>(**n, rest);
                lemma_le_bytes_len(resPQ::constructor_id() as nat, 4);
            },
        }
    }
}

impl From<Box<resPQ>> for ResPQ {
    fn from(v: Box<resPQ>) -> (r: Self) {
        Self::ResPQ(v)
    }
}

impl vstd::std_specs::convert::FromSpecImpl<Box<resPQ>> for ResPQ {
    open spec fn obeys_from_spec() -> bool {
        true
    }

    open spec fn from_spec(v: Box<resPQ>) -> Self {
        Self::ResPQ(v)
    }
}

impl From<resPQ> for ResPQ {
    fn from(v: resPQ) -> (r: Self) {
        Self::ResPQ(Box::new(v))
    }
}

impl vstd::std_specs::convert::FromSpecImpl<resPQ> for ResPQ {
    open spec fn obeys_from_spec() -> bool {
        true
    }

    open spec fn from_spec(v: resPQ) -> Self {
        Self::ResPQ(Box::new(v))
    }
}

/// The inner data that the client sends to prove its work.
#[derive(Clone, Debug)]
pub enum P_Q_inner_data {
    /// Used to create permanent authorization keys.
    P_Q_inner_data_dc(Box<p_q_inner_data_dc>),
    /// Used to create temporary authorization keys.
    P_Q_inner_data_temp_dc(Box<p_q_inner_data_temp_dc>),
}

/// What a `P_Q_inner_data` is, mathematically.
pub enum PqInnerDataValue {
    /// The data for a permanent key.
    Dc(<p_q_inner_data_dc as Deserialize>::Value),
    /// The data for a temporary key.
    TempDc(<p_q_inner_data_temp_dc as Deserialize>::Value),
}

impl P_Q_inner_data {
    /// Create a new instance from [resPQ]: for a temporary key that lasts
    /// `expired_in` seconds where that is given, else for a permanent key.
    pub fn new(v: &resPQ, expired_in: Option<i32>) -> (r: Result<Self, FactorizeError>)
        ensures
            r matches Err(FactorizeError::OpenSSLError(_)) ==> is_big(contents(v.pq)),
            v.surely_factored() ==> r is Ok,
            v.surely_not_factored() ==> r matches Err(FactorizeError::NotFound),
            r matches Err(FactorizeError::NotFound) ==> contents(v.pq).len() >= 0x0fff_ffff
                || crate::prime::searched_in_vain(contents(v.pq)),
            r matches Ok(d) ==> match (d, expired_in) {
                (Self::P_Q_inner_data_temp_dc(p), Some(e)) => {
                    &&& contents(p.pq) == contents(v.pq)
                    &&& v.factored(contents(p.p), contents(p.q))
                    &&& crate::prime::searched(
                        contents(v.pq),
                        crate::endian::be_value(contents(p.p)),
                        crate::endian::be_value(contents(p.q)),
                    )
                    &&& p.nonce == v.nonce
                    &&& p.server_nonce == v.server_nonce
                    &&& p.dc == -1
                    &&& p.expires_in == e
                },
                (Self::P_Q_inner_data_dc(p), None) => p.answers(v, p.new_nonce),
                _ => false,
            },
    {
        if let Some(expired_in) = expired_in {
            let mut p = match p_q_inner_data_temp_dc::try_from(v) {
                Ok(p) => p,
                Err(e) => {
                    return Err(e);
                },
            };
            p.expires_in = expired_in;
            Ok(Self::P_Q_inner_data_temp_dc(Box::new(p)))
        } else {
            match p_q_inner_data_dc::try_from(v) {
                Ok(p) => Ok(Self::P_Q_inner_data_dc(Box::new(p))),
                Err(e) => Err(e),
            }
        }
    }

    /// Value generated by client in the first step of the exchange.
    pub open spec fn spec_nonce(&self) -> i128 {
        match self {
            Self::P_Q_inner_data_dc(v) => v.nonce,
            Self::P_Q_inner_data_temp_dc(v) => v.nonce,
        }
    }

    /// Value received from server in the second step of the exchange.
    pub open spec fn spec_server_nonce(&self) -> i128 {
        match self {
            Self::P_Q_inner_data_dc(v) => v.server_nonce,
            Self::P_Q_inner_data_temp_dc(v) => v.server_nonce,
        }
    }

    /// Client-generated random number
    pub open spec fn spec_new_nonce(&self) -> crate::objects::base::I256 {
        match self {
            Self::P_Q_inner_data_dc(v) => v.new_nonce,
            Self::P_Q_inner_data_temp_dc(v) => v.new_nonce,
        }
    }
}

impl Serialize for P_Q_inner_data {
    open spec fn wire(&self) -> Seq<u8> {
        match self {
            Self::P_Q_inner_data_dc(n) => n.wire(),
            Self::P_Q_inner_data_temp_dc(n) => n.wire(),
        }
    }

    fn serialize(&self, writer: &mut Vec<u8>) {
        match self {
            Self::P_Q_inner_data_dc(n) => n.serialize(writer),
            Self::P_Q_inner_data_temp_dc(n) => n.serialize(writer),
        }
    }
}

impl OptDeserialize for P_Q_inner_data {
    type Value = PqInnerDataValue;

    open spec fn value(&self) -> PqInnerDataValue {
        match self {
            Self::P_Q_inner_data_dc(n) => PqInnerDataValue::Dc(Deserialize::value(&**n)),
            Self::P_Q_inner_data_temp_dc(n) => PqInnerDataValue::TempDc(Deserialize::value(&**n)),
        }
    }

    open spec fn opt_parse(input: Seq<u8>) -> Result<
        (Option<PqInnerDataValue>, nat),
        DeserializeError,
    > {
        match u32::parse(input) {
            Err(e) => Err(e),
            Ok((id, n)) => if id == p_q_inner_data_dc::constructor_id() {
                match p_q_inner_data_dc::parse(input.skip(n as int)) {
                    Err(e) => Err(e),
                    Ok((v, m)) => Ok((Some(PqInnerDataValue::Dc(v)), n + m)),
                }
            } else if id == p_q_inner_data_temp_dc::constructor_id() {
                match p_q_inner_data_temp_dc::parse(input.skip(n as int)) {
                    Err(e) => Err(e),
                    Ok((v, m)) => Ok((Some(PqInnerDataValue::TempDc(v)), n + m)),
                }
            } else {
                Ok((None, n))
            },
        }
    }

    fn opt_deserialize<'a>(data: &mut Reader<'a>) -> (r: Result<Option<Self>, DeserializeError>) {
        let ghost input = data.remaining();
        let type_id: u32 = match u32::deserialize(data) {
            Ok(id) => id,
            Err(e) => {
                return Err(e);
            },
        };
        if type_id == p_q_inner_data_dc::type_id2() {
            match p_q_inner_data_dc::deserialize(data) {
                Ok(v) => {
                    proof {
                        let m = p_q_inner_data_dc::parse(input.skip(4)).unwrap().1;
                        assert(input.skip(4).skip(m as int) =~= input.skip(4 + m as int));
                    }
                    return Ok(Some(Self::P_Q_inner_data_dc(Box::new(v))));
                },
                Err(e) => {
                    return Err(e);
                },
            }
        }
        if type_id == p_q_inner_data_temp_dc::type_id2() {
            match p_q_inner_data_temp_dc::deserialize(data) {
                Ok(v) => {
                    proof {
                        let m = p_q_inner_data_temp_dc::parse(input.skip(4)).unwrap().1;
                        assert(input.skip(4).skip(m as int) =~= input.skip(4 + m as int));
                    }
                    return Ok(Some(Self::P_Q_inner_data_temp_dc(Box::new(v))));
                },
                Err(e) => {
                    return Err(e);
                },
            }
        }
        Ok(None)
    }
}

impl Tagged for P_Q_inner_data {
    open spec fn tag(&self) -> u32 {
        match self {
            Self::P_Q_inner_data_dc(n) => n.tag(),
            Self::P_Q_inner_data_temp_dc(n) => n.tag(),
        }
    }

    proof fn starts_with_tag(&self) {
        match self {
            Self::P_Q_inner_data_dc(n) => n.starts_with_tag(),
            Self::P_Q_inner_data_temp_dc(n) => n.starts_with_tag(),
        }
    }
}

impl RoundTrip for P_Q_inner_data {
    open spec fn well_formed(&self) -> bool {
        match self {
            Self::P_Q_inner_data_dc(n) => n.well_formed(),
            Self::P_Q_inner_data_temp_dc(n) => n.well_formed(),
        }
    }

    proof fn round_trip(&self, rest: Seq<u8>) {
        match self {
            Self::P_Q_inner_data_dc(n) => {
                lemma_boxed_round_trip::<p_q_inner_data_dc>(**n, rest);
                lemma_le_bytes_len(p_q_inner_data_dc::constructor_id() as nat, 4);
            },
            Self::P_Q_inner_data_temp_dc(n) => {
                lemma_boxed_round_trip::<p_q_inner_data_temp_dc>(**n, rest);
                lemma_le_bytes_len(p_q_inner_data_temp_dc::constructor_id() as nat, 4);
            },
        }
    }
}

impl From<Box<p_q_inner_data_dc>> for P_Q_inner_data {
    fn from(v: Box<p_q_inner_data_dc>) -> (r: Self) {
        Self::P_Q_inner_data_dc(v)
    }
}

impl vstd::std_specs::convert::FromSpecImpl<Box<p_q_inner_data_dc>> for P_Q_inner_data {
    open spec fn obeys_from_spec() -> bool {
        true
    }

    open spec fn from_spec(v: Box<p_q_inner_data_dc>) -> Self {
        Self::P_Q_inner_data_dc(v)
    }
}

impl From<p_q_inner_data_dc> for P_Q_inner_data {
    fn from(v: p_q_inner_data_dc) -> (r: Self) {
        Self::P_Q_inner_data_dc(Box::new(v))
    }
}

impl vstd::std_specs::convert::FromSpecImpl<p_q_inner_data_dc> for P_Q_inner_data {
    open spec fn obeys_from_spec() -> bool {
        true
    }

    open spec fn from_spec(v: p_q_inner_data_dc) -> Self {
        Self::P_Q_inner_data_dc(Box::new(v))
    }
}

impl From<Box<p_q_inner_data_temp_dc>> for P_Q_inner_data {
    fn from(v: Box<p_q_inner_data_temp_dc>) -> (r: Self) {
        Self::P_Q_inner_data_temp_dc(v)
    }
}

impl vstd::std_specs::convert::FromSpecImpl<Box<p_q_inner_data_temp_dc>> for P_Q_inner_data {
    open spec fn obeys_from_spec() -> bool {
        true
    }

    open spec fn from_spec(v: Box<p_q_inner_data_temp_dc>) -> Self {
        Self::P_Q_inner_data_temp_dc(v)
    }
}

impl From<p_q_inner_data_temp_dc> for P_Q_inner_data {
    fn from(v: p_q_inner_data_temp_dc) -> (r: Self) {
        Self::P_Q_inner_data_temp_dc(Box::new(v))
    }
}

impl vstd::std_specs::convert::FromSpecImpl<p_q_inner_data_temp_dc> for P_Q_inner_data {
    open spec fn obeys_from_spec() -> bool {
        true
    }

    open spec fn from_spec(v: p_q_inner_data_temp_dc) -> Self {
        Self::P_Q_inner_data_temp_dc(Box::new(v))
    }
}

/// The answer of the server to the request for its Diffie-Hellman parameters.
#[derive(Clone, Debug)]
pub enum Server_DH_Params {
    /// The parameters, encrypted.
    ParamsOk(Box<server_DH_params_ok>),
    /// Any other answer: the constructor ID that was read, kept as a failure code.
    Failed(i32),
}

/// What a `Server_DH_Params` is, mathematically.
pub enum ServerDhParamsValue {
    /// The parameters, encrypted.
    ParamsOk(<server_DH_params_ok as Deserialize>::Value),
    /// The failure code.
    Failed(i32),
}

impl Serialize for Server_DH_Params {
    open spec fn wire(&self) -> Seq<u8> {
        match self {
            Self::ParamsOk(n) => n.wire(),
            Self::Failed(n) => n.wire(),
        }
    }

    fn serialize(&self, writer: &mut Vec<u8>) {
        match self {
            Self::ParamsOk(n) => n.serialize(writer),
            Self::Failed(n) => n.serialize(writer),
        }
    }
}

impl Deserialize for Server_DH_Params {
    type Value = ServerDhParamsValue;

    open spec fn value(&self) -> ServerDhParamsValue {
        match self {
            Self::ParamsOk(n) => ServerDhParamsValue::ParamsOk(Deserialize::value(&**n)),
            Self::Failed(n) => ServerDhParamsValue::Failed(*n),
        }
    }

    open spec fn parse(input: Seq<u8>) -> Result<(ServerDhParamsValue, nat), DeserializeError> {
        match i32::parse(input) {
            Err(e) => Err(e),
            Ok((id, n)) => if id == twos_code(server_DH_params_ok::constructor_id()) {
                match server_DH_params_ok::parse(input.skip(n as int)) {
                    Err(e) => Err(e),
                    Ok((v, m)) => Ok((ServerDhParamsValue::ParamsOk(v), n + m)),
                }
            } else {
                Ok((ServerDhParamsValue::Failed(id), n))
            },
        }
    }

    fn deserialize<'a>(data: &mut Reader<'a>) -> (r: Result<Self, DeserializeError>) {
        let ghost input = data.remaining();
        let type_id: i32 = match i32::deserialize(data) {
            Ok(id) => id,
            Err(e) => {
                return Err(e);
            },
        };
        if type_id == failure_code(server_DH_params_ok::type_id2()) {
            match server_DH_params_ok::deserialize(data) {
                Ok(v) => {
                    proof {
                        let m = server_DH_params_ok::parse(input.skip(4)).unwrap().1;
                        assert(input.skip(4).skip(m as int) =~= input.skip(4 + m as int));
                    }
                    Ok(Self::ParamsOk(Box::new(v)))
                },
                Err(e) => Err(e),
            }
        } else {
            Ok(Self::Failed(type_id))
        }
    }
}

/// A constructor ID read as a signed number: the failure code that it makes.
pub open spec fn twos_code(id: u32) -> i32 {
    if id < 0x8000_0000 {
        id as i32
    } else {
        (id - 0x1_0000_0000) as i32
    }
}

/// A constructor ID read as a signed number.
pub fn failure_code(id: u32) -> (code: i32)
    ensures
        code == twos_code(id),
{
    if id < 0x8000_0000 {
        id as i32
    } else {
        -((0xffff_ffffu32 - id) as i32) - 1
    }
}

impl Tagged for Server_DH_Params {
    open spec fn tag(&self) -> u32 {
        match self {
            Self::ParamsOk(n) => n.tag(),
            Self::Failed(n) => crate::objects::base::twos_complement(*n as int, 4) as u32,
        }
    }

    proof fn starts_with_tag(&self) {
        lemma_pow256_values();
        match self {
            Self::ParamsOk(n) => n.starts_with_tag(),
            Self::Failed(n) => {
                lemma_le_bytes_len(crate::objects::base::twos_complement(*n as int, 4), 4);
                assert(self.wire().take(4) =~= self.wire());
            },
        }
    }
}

impl RoundTrip for Server_DH_Params {
    open spec fn well_formed(&self) -> bool {
        match self {
            Self::ParamsOk(n) => n.well_formed(),
            Self::Failed(n) => *n != twos_code(server_DH_params_ok::constructor_id()),
        }
    }

    proof fn round_trip(&self, rest: Seq<u8>) {
        lemma_pow256_values();
        match self {
            Self::ParamsOk(n) => {
                let id = server_DH_params_ok::constructor_id();
                let head = le_bytes(id as nat, 4);
                let body = (**n).wire();
                lemma_le_bytes_len(id as nat, 4);
                assert(self.wire() + rest =~= head + (body + rest));
                lemma_parse_le_of_bytes(id as nat, 4, body + rest);
                assert((self.wire() + rest).skip(4) =~= body + rest);
                (**n).round_trip(rest);
            },
            Self::Failed(n) => {
                n.round_trip(rest);
            },
        }
    }
}

impl From<Box<server_DH_params_ok>> for Server_DH_Params {
    fn from(v: Box<server_DH_params_ok>) -> (r: Self) {
        Self::ParamsOk(v)
    }
}

impl vstd::std_specs::convert::FromSpecImpl<Box<server_DH_params_ok>> for Server_DH_Params {
    open spec fn obeys_from_spec() -> bool {
        true
    }

    open spec fn from_spec(v: Box<server_DH_params_ok>) -> Self {
        Self::ParamsOk(v)
    }
}

impl From<server_DH_params_ok> for Server_DH_Params {
    fn from(v: server_DH_params_ok) -> (r: Self) {
        Self::ParamsOk(Box::new(v))
    }
}

impl vstd::std_specs::convert::FromSpecImpl<server_DH_params_ok> for Server_DH_Params {
    open spec fn obeys_from_spec() -> bool {
        true
    }

    open spec fn from_spec(v: server_DH_params_ok) -> Self {
        Self::ParamsOk(Box::new(v))
    }
}

impl From<i32> for Server_DH_Params {
    fn from(v: i32) -> (r: Self) {
        Self::Failed(v)
    }
}

impl vstd::std_specs::convert::FromSpecImpl<i32> for Server_DH_Params {
    open spec fn obeys_from_spec() -> bool {
        true
    }

    open spec fn from_spec(v: i32) -> Self {
        Self::Failed(v)
    }
}

/// The Diffie-Hellman parameters of the server, as they are inside its encrypted answer.
#[derive(Clone, Debug)]
pub enum Server_DH_Inner_Data {
    /// The one constructor of the type.
    Boxed(Box<server_DH_inner_data>),
}

impl Serialize for Server_DH_Inner_Data {
    open spec fn wire(&self) -> Seq<u8> {
        match self {
            Self::Boxed(n) => n.wire(),
        }
    }

    fn serialize(&self, writer: &mut Vec<u8>) {
        match self {
            Self::Boxed(n) => n.serialize(writer),
        }
    }
}

impl OptDeserialize for Server_DH_Inner_Data {
    type Value = <server_DH_inner_data as Deserialize>::Value;

    open spec fn value(&self) -> Self::Value {
        match self {
            Self::Boxed(n) => Deserialize::value(&**n),
        }
    }

    open spec fn opt_parse(input: Seq<u8>) -> Result<(Option<Self::Value>, nat), DeserializeError> {
        boxed_parse::<server_DH_inner_data>(input, server_DH_inner_data::constructor_id())
    }

    fn opt_deserialize<'a>(data: &mut Reader<'a>) -> (r: Result<Option<Self>, DeserializeError>) {
        match Box::<server_DH_inner_data>::opt_deserialize(data) {
            Ok(Some(v)) => Ok(Some(Self::Boxed(v))),
            Ok(None) => Ok(None),
            Err(e) => Err(e),
        }
    }
}

impl Tagged for Server_DH_Inner_Data {
    open spec fn tag(&self) -> u32 {
        match self {
            Self::Boxed(n) => n.tag(),
        }
    }

    proof fn starts_with_tag(&self) {
        match self {
            Self::Boxed(n) => n.starts_with_tag(),
        }
    }
}

impl RoundTrip for Server_DH_Inner_Data {
    open spec fn well_formed(&self) -> bool {
        match self {
            Self::Boxed(n) => n.well_formed(),
        }
    }

    proof fn round_trip(&self, rest: Seq<u8>) {
        match self {
            Self::Boxed(n) => {
                lemma_boxed_round_trip::<server_DH_inner_data>(**n, rest);
                lemma_le_bytes_len(server_DH_inner_data::constructor_id() as nat, 4);
            },
        }
    }
}

impl From<Box<server_DH_inner_data>> for Server_DH_Inner_Data {
    fn from(v: Box<server_DH_inner_data>) -> (r: Self) {
        Self::Boxed(v)
    }
}

impl vstd::std_specs::convert::FromSpecImpl<Box<server_DH_inner_data>> for Server_DH_Inner_Data {
    open spec fn obeys_from_spec() -> bool {
        true
    }

    open spec fn from_spec(v: Box<server_DH_inner_data>) -> Self {
        Self::Boxed(v)
    }
}

impl From<server_DH_inner_data> for Server_DH_Inner_Data {
    fn from(v: server_DH_inner_data) -> (r: Self) {
        Self::Boxed(Box::new(v))
    }
}

impl vstd::std_specs::convert::FromSpecImpl<server_DH_inner_data> for Server_DH_Inner_Data {
    open spec fn obeys_from_spec() -> bool {
        true
    }

    open spec fn from_spec(v: server_DH_inner_data) -> Self {
        Self::Boxed(Box::new(v))
    }
}

impl Server_DH_Inner_Data {
    /// The parameters themselves.
    pub open spec fn inner(&self) -> &server_DH_inner_data {
        match self {
            Self::Boxed(v) => &**v,
        }
    }
}

/// The Diffie-Hellman answer of the client, as it is inside its encrypted request.
#[derive(Clone, Debug)]
pub enum Client_DH_Inner_Data {
    /// The one constructor of the type.
    Boxed(Box<client_DH_inner_data>),
}

impl Serialize for Client_DH_Inner_Data {
    open spec fn wire(&self) -> Seq<u8> {
        match self {
            Self::Boxed(n) => n.wire(),
        }
    }

    fn serialize(&self, writer: &mut Vec<u8>) {
        match self {
            Self::Boxed(n) => n.serialize(writer),
        }
    }
}

impl OptDeserialize for Client_DH_Inner_Data {
    type Value = <client_DH_inner_data as Deserialize>::Value;

    open spec fn value(&self) -> Self::Value {
        match self {
            Self::Boxed(n) => Deserialize::value(&**n),
        }
    }

    open spec fn opt_parse(input: Seq<u8>) -> Result<(Option<Self::Value>, nat), DeserializeError> {
        boxed_parse::<client_DH_inner_data>(input, client_DH_inner_data::constructor_id())
    }

    fn opt_deserialize<'a>(data: &mut Reader<'a>) -> (r: Result<Option<Self>, DeserializeError>)
        ensures
            r matches Ok(Some(v)) ==> contents(v.inner().b) == Seq::<u8>::empty(),
    {
        let ghost input = data.remaining();
        let type_id: u32 = match u32::deserialize(data) {
            Ok(id) => id,
            Err(e) => {
                return Err(e);
            },
        };
        if type_id != client_DH_inner_data::type_id2() {
            return Ok(None);
        }
        match client_DH_inner_data::deserialize(data) {
            Ok(v) => {
                proof {
                    let m = client_DH_inner_data::parse(input.skip(4)).unwrap().1;
                    assert(input.skip(4).skip(m as int) =~= input.skip(4 + m as int));
                }
                Ok(Some(Self::Boxed(Box::new(v))))
            },
            Err(e) => Err(e),
        }
    }

    fn opt_deserialize_from_bytes(data: &[u8]) -> (r: Result<Option<Self>, DeserializeError>)
        ensures
            r matches Ok(Some(v)) ==> contents(v.inner().b) == Seq::<u8>::empty(),
    {
        let mut reader = Reader::new(data);
        Self::opt_deserialize(&mut reader)
    }
}

impl Tagged for Client_DH_Inner_Data {
    open spec fn tag(&self) -> u32 {
        match self {
            Self::Boxed(n) => n.tag(),
        }
    }

    proof fn starts_with_tag(&self) {
        match self {
            Self::Boxed(n) => n.starts_with_tag(),
        }
    }
}

impl RoundTrip for Client_DH_Inner_Data {
    open spec fn well_formed(&self) -> bool {
        match self {
            Self::Boxed(n) => n.well_formed(),
        }
    }

    proof fn round_trip(&self, rest: Seq<u8>) {
        match self {
            Self::Boxed(n) => {
                lemma_boxed_round_trip::<client_DH_inner_data>(**n, rest);
                lemma_le_bytes_len(client_DH_inner_data::constructor_id() as nat, 4);
            },
        }
    }
}

impl From<Box<client_DH_inner_data>> for Client_DH_Inner_Data {
    fn from(v: Box<client_DH_inner_data>) -> (r: Self) {
        Self::Boxed(v)
    }
}

impl vstd::std_specs::convert::FromSpecImpl<Box<client_DH_inner_data>> for Client_DH_Inner_Data {
    open spec fn obeys_from_spec() -> bool {
        true
    }

    open spec fn from_spec(v: Box<client_DH_inner_data>) -> Self {
        Self::Boxed(v)
    }
}

impl From<client_DH_inner_data> for Client_DH_Inner_Data {
    fn from(v: client_DH_inner_data) -> (r: Self) {
        Self::Boxed(Box::new(v))
    }
}

impl vstd::std_specs::convert::FromSpecImpl<client_DH_inner_data> for Client_DH_Inner_Data {
    open spec fn obeys_from_spec() -> bool {
        true
    }

    open spec fn from_spec(v: client_DH_inner_data) -> Self {
        Self::Boxed(Box::new(v))
    }
}

impl std::ops::Deref for Server_DH_Inner_Data {
    type Target = server_DH_inner_data;

    fn deref(&self) -> (v: &server_DH_inner_data)
        ensures
            v == self.inner(),
    {
        match self {
            Self::Boxed(v) => v,
        }
    }
}

impl Client_DH_Inner_Data {
    /// The answer itself.
    pub open spec fn inner(&self) -> &client_DH_inner_data {
        match self {
            Self::Boxed(v) => &**v,
        }
    }

    /// Create a new instance, with a secret exponent of 256 random bytes.
    /// * `server_DH_inner_data` - Server's DH inner data received in the fifth step of the exchange
    /// * `retry_id` - Equal to zero at the time of the first attempt;
    /// otherwise, it is equal to auth_key_aux_hash from the previous failed attempt
    pub fn new(server_inner_data: &Server_DH_Inner_Data, retry_id: i64) -> (r: Result<
        Self,
        ErrorStack,
    >)
        requires
            fits(contents(server_inner_data.inner().dh_prime)),
        ensures
            r matches Ok(c) ==> exists|secret: Seq<u8>|
                secret.len() == 256 && #[trigger] c.inner().answers(
                    server_inner_data.inner(),
                    retry_id,
                    secret,
                ),
    {
        let c = client_DH_inner_data::new(server_inner_data, retry_id)?;
        let ghost secret = choose|secret: Seq<u8>|
            secret.len() == 256 && #[trigger] c.answers(
                server_inner_data.inner(),
                retry_id,
                secret,
            );
        let out: Result<Self, ErrorStack> = Ok(Self::Boxed(Box::new(c)));
        assert(out matches Ok(boxed) ==> boxed.inner().answers(
            server_inner_data.inner(),
            retry_id,
            secret,
        ));
        out
    }
}

} // verus!
