//! Classes and bound instances.
//!
//! A class lookup yields a service-level function identifier and handle
//! metadata: the class's method names and its declared parameter schema.
//! Instantiation binds caller-supplied parameters — when the class declares
//! a non-empty schema in the structured serialization format — by exchanging
//! the canonical parameter bytes for a bound, instance-specific function
//! identifier.  Every declared method then resolves to that identifier.

use vstd::prelude::*;
use crate::assoc::AssocList;
use crate::engine::EngineAction;
use crate::engine::EngineState;
use crate::engine::InvocationError;
use crate::engine::invoke;
use crate::engine::invoke_model;
use crate::params::BindError;
use crate::params::ParamDecl;
use crate::params::ParamMap;
use crate::params::decls_view;
use crate::params::encode_parameter_set;
use crate::params::encode_parameter_set_spec;
use crate::wire::clone_bytes;
use vstd::string::StringExecFns;

verus! {

/// The parameter serialization format a class declares.
#[derive(Clone, Copy, PartialEq, Eq, Structural, Debug)]
pub enum ParamFormat {
    /// No format declared.
    Unknown,
    /// The legacy pickled format; the binder does not handle it.
    Legacy,
    /// The structured format that the schema-driven encoder produces.
    Structured,
}

/// The declared parameter information of a class.
pub struct ClassParameterInfo {
    pub format: ParamFormat,
    pub schema: Vec<ParamDecl>,
}

/// The handle metadata a lookup returns for a class.
pub struct HandleMetadata {
    pub method_names: Vec<Vec<u8>>,
    pub parameter_info: Option<ClassParameterInfo>,
}

/// A looked-up class: the service-level function identifier plus metadata.
pub struct Cls {
    pub service_function_id: String,
    pub service_function_metadata: Option<HandleMetadata>,
}

/// An instantiated class: every declared method name mapped to the function
/// identifier that invokes it.
pub struct ClsInstance {
    methods: AssocList<String>,
}

impl View for ClsInstance {
    type V = Map<Seq<u8>, Seq<char>>;

    closed spec fn view(&self) -> Map<Seq<u8>, Seq<char>> {
        self.methods@
    }
}

/// What a caller must still do to obtain a bound instance.
pub enum InstancePlan {
    /// No binding round trip is needed; the instance is ready.
    Ready(ClsInstance),
    /// The canonical parameter bytes must be exchanged for a bound
    /// identifier; [`Cls::instance_with_bound_id`] then completes the
    /// instance.
    NeedsBind { serialized_params: Vec<u8> },
}

/// Binding is attempted exactly when the metadata declares a non-empty
/// schema in the structured serialization format.
pub open spec fn binding_required(c: &Cls) -> bool {
    &&& c.service_function_metadata is Some
    &&& c.service_function_metadata->0.parameter_info is Some
    &&& c.service_function_metadata->0.parameter_info->0.format == ParamFormat::Structured
    &&& c.service_function_metadata->0.parameter_info->0.schema@.len() > 0
}

/// The method map resolves exactly the given names, all to `fid`.
pub open spec fn resolves_all(
    m: Map<Seq<u8>, Seq<char>>,
    names: Seq<Vec<u8>>,
    fid: Seq<char>,
) -> bool {
    &&& forall|k: Seq<u8>|
        #![auto]
        m.contains_key(k) <==> (exists|j: int| 0 <= j < names.len() && names[j]@ == k)
    &&& forall|k: Seq<u8>| #![auto] m.contains_key(k) ==> m[k] == fid
}

/// Turns a lookup response into its outcome: an empty function identifier
/// signals that nothing of that name is deployed.
pub fn lookup_outcome(function_id: String) -> (r: Result<String, InvocationError>)
    ensures
        function_id@.len() == 0 ==> (r matches Err(e) && e is NotFound),
        function_id@.len() > 0 ==> (r matches Ok(f) && f@ == function_id@),
{
    if function_id.as_str().is_empty() {
        Err(InvocationError::NotFound)
    } else {
        Ok(function_id)
    }
}

impl Cls {
    /// The object tag under which a class's service function is looked up:
    /// the class name with a `.*` suffix.
    pub fn service_function_name(name: &str) -> (r: String)
        ensures
            r@ == name@ + seq!['.', '*'],
    {
        let mut s = name.to_owned();
        s.append(".*");
        proof {
            reveal_strlit(".*");
            assert(".*"@ =~= seq!['.', '*']);
        }
        s
    }

    /// Turns a class lookup response into a class, rejecting an empty
    /// identifier as not-found.
    pub fn from_lookup(function_id: String, metadata: Option<HandleMetadata>) -> (r: Result<
        Cls,
        InvocationError,
    >)
        ensures
            function_id@.len() == 0 ==> (r matches Err(e) && e is NotFound),
            function_id@.len() > 0 ==> (r matches Ok(c) && c.service_function_id@ == function_id@
                && c.service_function_metadata == metadata),
    {
        if function_id.as_str().is_empty() {
            Err(InvocationError::NotFound)
        } else {
            Ok(Cls { service_function_id: function_id, service_function_metadata: metadata })
        }
    }

    /// Begins instantiation.  With a structured, non-empty schema the
    /// caller's parameters are validated and canonically encoded, and the
    /// bytes must be exchanged for a bound identifier; otherwise the
    /// service-level identifier serves directly and the instance is ready.
    /// A class without metadata cannot be instantiated.
    pub fn instance(&self, parameters: &ParamMap) -> (r: Result<InstancePlan, BindError>)
        ensures
            self.service_function_metadata is None ==> (r matches Err(e) && e is MetadataMissing),
            binding_required(self) ==> (match encode_parameter_set_spec(
                decls_view(self.service_function_metadata->0.parameter_info->0.schema@),
                parameters@,
            ) {
                Ok(bytes) => (r matches Ok(p) && p matches InstancePlan::NeedsBind {
                    serialized_params,
                } && serialized_params@ == bytes),
                Err(e) => (r matches Err(e2) && e2@ == e),
            }),
            self.service_function_metadata is Some && !binding_required(self) ==> (r matches Ok(p)
                && p matches InstancePlan::Ready(inst) && resolves_all(
                inst@,
                self.service_function_metadata->0.method_names@,
                self.service_function_id@,
            )),
    {
        match &self.service_function_metadata {
            None => Err(BindError::MetadataMissing),
            Some(metadata) => {
                match &metadata.parameter_info {
                    Some(info) => {
                        if matches!(info.format, ParamFormat::Structured) && info.schema.len() > 0 {
                            match encode_parameter_set(&info.schema, parameters) {
                                Ok(bytes) => Ok(InstancePlan::NeedsBind { serialized_params: bytes }),
                                Err(e) => Err(e),
                            }
                        } else {
                            Ok(InstancePlan::Ready(ClsInstance {
                                methods: build_methods(&metadata.method_names, &self.service_function_id),
                            }))
                        }
                    },
                    None => Ok(InstancePlan::Ready(ClsInstance {
                        methods: build_methods(&metadata.method_names, &self.service_function_id),
                    })),
                }
            },
        }
    }

    /// Completes instantiation after the binding exchange.  An empty bound
    /// identifier means binding was a no-op and the service-level
    /// identifier stays in effect.
    pub fn instance_with_bound_id(&self, bound_function_id: &str) -> (r: Result<
        ClsInstance,
        BindError,
    >)
        ensures
            self.service_function_metadata is None ==> (r matches Err(e) && e is MetadataMissing),
            self.service_function_metadata is Some ==> (r matches Ok(inst) && resolves_all(
                inst@,
                self.service_function_metadata->0.method_names@,
                if bound_function_id@.len() == 0 {
                    self.service_function_id@
                } else {
                    bound_function_id@
                },
            )),
    {
        match &self.service_function_metadata {
            None => Err(BindError::MetadataMissing),
            Some(metadata) => {
                let chosen: String = if bound_function_id.is_empty() {
                    self.service_function_id.clone()
                } else {
                    bound_function_id.to_owned()
                };
                Ok(ClsInstance { methods: build_methods(&metadata.method_names, &chosen) })
            },
        }
    }
}

/// Builds the method map: every declared name resolves to `function_id`.
fn build_methods(names: &Vec<Vec<u8>>, function_id: &String) -> (r: AssocList<String>)
    ensures
        resolves_all(r@, names@, function_id@),
{
    let mut methods: AssocList<String> = AssocList::new();
    let mut i: usize = 0;
    while i < names.len()
        invariant
            0 <= i <= names@.len(),
            forall|k: Seq<u8>|
                #![auto]
                methods@.contains_key(k) <==> (exists|j: int| 0 <= j < i && names@[j]@ == k),
            forall|k: Seq<u8>| #![auto] methods@.contains_key(k) ==> methods@[k] == function_id@,
        decreases names@.len() - i,
    {
        methods.insert(clone_bytes(&names[i]), function_id.clone());
        i = i + 1;
    }
    methods
}

impl ClsInstance {
    /// Resolves a method by exact name and starts its invocation: on
    /// success the result carries the submit-ready state machine.  An
    /// unregistered name fails with method-not-found, and no request of any
    /// kind is issued for it.
    pub fn call_method(&self, method: &Vec<u8>, args_cbor: Vec<u8>) -> (r: Result<
        (EngineState, EngineAction),
        InvocationError,
    >)
        ensures
            !self@.contains_key(method@) ==> (r matches Err(e) && e is MethodNotFound),
            self@.contains_key(method@) ==> (r matches Ok(sa) && sa.0@ == invoke_model(
                self@[method@],
                args_cbor@,
            ).0 && sa.1@ == invoke_model(self@[method@], args_cbor@).1),
    {
        match self.methods.get(method) {
            None => Err(InvocationError::MethodNotFound),
            Some(fid) => Ok(invoke(fid.clone(), args_cbor)),
        }
    }
}

} // verus!
