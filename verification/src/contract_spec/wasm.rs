//! Finding a custom section of a WebAssembly module.

use vstd::prelude::*;

use crate::error::GratErrorModel;
use crate::text::same_text;

verus! {

/// One item of a parsed WebAssembly module.
#[derive(Debug, Clone, PartialEq, Eq)]
pub enum WasmPayload {
    /// A custom section, with its name and its contents.
    Custom { name: String, data: Vec<u8> },
    /// Any other item.
    Other,
    /// A place that cannot be parsed.
    Malformed,
}

/// The model of [`WasmPayload`].
pub enum PayloadModel {
    Custom { name: Seq<char>, data: Seq<u8> },
    Other,
    Malformed,
}

impl View for WasmPayload {
    type V = PayloadModel;

    open spec fn view(&self) -> PayloadModel {
        match *self {
            WasmPayload::Custom { name, data } => PayloadModel::Custom { name: name@, data: data@ },
            WasmPayload::Other => PayloadModel::Other,
            WasmPayload::Malformed => PayloadModel::Malformed,
        }
    }
}

/// The models of a sequence of payloads.
pub open spec fn payload_models(payloads: Seq<WasmPayload>) -> Seq<PayloadModel> {
    Seq::new(payloads.len(), |i: int| payloads[i]@)
}

/// The items that `wasmparser::Parser::parse_all` yields for `wasm`, in order.
pub uninterp spec fn payloads_in(wasm: Seq<u8>) -> Seq<PayloadModel>;

/// Whether `payload` is a custom section called `name`.
pub open spec fn is_section(payload: PayloadModel, name: Seq<char>) -> bool {
    payload matches PayloadModel::Custom { name: own, .. } && own == name
}

/// The contents of the first custom section called `name`.
pub open spec fn section_named(payloads: Seq<PayloadModel>, name: Seq<char>) -> Option<Seq<u8>>
    decreases payloads.len(),
{
    if payloads.len() == 0 {
        None
    } else if is_section(payloads[0], name) {
        Some(payloads[0]->data)
    } else {
        section_named(payloads.drop_first(), name)
    }
}

/// The error for a section that is not there.
pub open spec fn section_missing(name: Seq<char>) -> GratErrorModel {
    GratErrorModel::SpecError(name + " custom section not found"@)
}

/// The items of a WebAssembly module.
///
/// Calls `wasmparser::Parser::parse_all` on a parser at offset 0 and maps each item
/// that it yields: of a `Payload::CustomSection`, what `name` and `data` return are
/// kept. Claimed: the items depend on `wasm` alone.
#[verifier::external_body]
pub(crate) fn parse_payloads(wasm: &[u8]) -> (payloads: Vec<WasmPayload>)
    ensures
        payload_models(payloads@) == payloads_in(wasm@),
{
    wasmparser::Parser::new(0).parse_all(wasm).map(|payload| match payload {
        Ok(wasmparser::Payload::CustomSection(section)) => WasmPayload::Custom {
            name: section.name().to_string(),
            data: section.data().to_vec(),
        },
        Ok(_) => WasmPayload::Other,
        Err(_) => WasmPayload::Malformed,
    }).collect()
}

/// The contents of the first custom section called `section_name` among `payloads`.
pub fn find_section(payloads: Vec<WasmPayload>, section_name: &str) -> (data: Option<Vec<u8>>)
    ensures
        match data {
            Some(bytes) => section_named(payload_models(payloads@), section_name@) == Some(bytes@),
            None => section_named(payload_models(payloads@), section_name@) is None,
        },
{
    let ghost models = payload_models(payloads@);
    assert(models.skip(0) =~= models);
    for payload in items: payloads
        invariant
            items.seq() == payloads@,
            models == payload_models(payloads@),
            section_named(models, section_name@) == section_named(
                models.skip(items.index() as int),
                section_name@,
            ),
    {
        let ghost rest = models.skip(items.index() as int);
        assert(rest[0] == payload@);
        assert(rest.drop_first() =~= models.skip(items.index() + 1));
        match payload {
            WasmPayload::Custom { name, data } => {
                if same_text(name.as_str(), section_name) {
                    return Some(data);
                }
            },
            WasmPayload::Other => {},
            WasmPayload::Malformed => {},
        }
    }
    None
}

} // verus!
