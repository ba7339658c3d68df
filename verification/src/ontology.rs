//! The object types of the control plane and the deterministic ids of its
//! objects in the graph store.
use crate::error::{refusal, Error};
use crate::graph::{ActionOp, ActionParamDef, ActionTypeDef, ObjectType, PropertyDef};
use crate::text::{chars_of, copy_texts, decimal_int, decimal_int_text, join, joined, quote, quoted, same, texts};
use vstd::prelude::*;

verus! {

pub const NS: &'static str = "tenkai";

pub const KIND_PRODUCT: &'static str = "tenkai.product";

pub const KIND_RELEASE: &'static str = "tenkai.release";

pub const KIND_RELEASE_VERIFICATION: &'static str = "tenkai.release_verification";

pub const KIND_CHANNEL: &'static str = "tenkai.channel";

pub const KIND_ENVIRONMENT: &'static str = "tenkai.environment";

pub const KIND_MAINTENANCE_CONFIG: &'static str = "tenkai.maintenance_config";

pub const KIND_PLAN: &'static str = "tenkai.plan";

pub const KIND_ENVIRONMENT_EXECUTION: &'static str = "tenkai.environment_execution";

pub const KIND_DEPLOYMENT: &'static str = "tenkai.deployment";

pub const KIND_CANARY_DESIGNATION: &'static str = "tenkai.canary_designation";

pub const KIND_CANARY_POLICY: &'static str = "tenkai.canary_policy";

pub const KIND_CANARY_POLICY_POINTER: &'static str = "tenkai.canary_policy_pointer";

pub const KIND_CANARY_ATTEMPT: &'static str = "tenkai.canary_attempt";

pub const KIND_CANARY_OUTCOME: &'static str = "tenkai.canary_outcome";

pub const KIND_PROMOTION_AUDIT: &'static str = "tenkai.promotion_audit";

pub const KIND_PROMOTION_LOCK: &'static str = "tenkai.promotion_lock";

pub const REL_RELEASE_OF: &'static str = "release_of";

pub const REL_HAS_RELEASE_VERIFICATION: &'static str = "has_release_verification";

pub const REL_PROMOTES: &'static str = "promotes";

pub const REL_SUBSCRIBES: &'static str = "subscribes";

pub const REL_DEPLOYED_RELEASE: &'static str = "deployed_release";

pub const REL_IN_ENVIRONMENT: &'static str = "in_environment";

pub const REL_PART_OF_PLAN: &'static str = "part_of_plan";

pub const REL_GOVERNS_RELEASE: &'static str = "governs_release";

pub const REL_EVIDENCE_FOR_POLICY: &'static str = "evidence_for_policy";

pub const REL_AUDITS_PROMOTION: &'static str = "audits_promotion";

pub const ACTION_SUBSCRIBE: &'static str = "tenkai.subscribe";

pub const ACTION_REPLACE_SUBSCRIPTION: &'static str = "tenkai.replace_subscription";

pub const ACTION_CONFIGURE_MAINTENANCE: &'static str = "tenkai.configure_maintenance_windows";

pub const ACTION_EMERGENCY_OVERRIDE: &'static str = "tenkai.emergency_maintenance_override";

pub const KIND_PACKAGE_MIGRATION: &'static str = "tenkai.package_migration";

pub const KIND_PACKAGE_MIGRATION_LOCK: &'static str = "tenkai.package_migration_lock";

pub const KIND_PLAN_APPROVAL_VERIFICATION: &'static str = "tenkai.plan_approval_verification";

/// An ASCII letter or digit.
pub open spec fn alphanumeric(c: char) -> bool {
    '0' <= c <= '9' || 'A' <= c <= 'Z' || 'a' <= c <= 'z'
}

/// A character that an identifier may hold behind its first.
pub open spec fn identifier_char(c: char) -> bool {
    alphanumeric(c) || c == '.' || c == '_' || c == '-' || c == '+'
}

/// An identifier: a letter or digit, then letters, digits and `.`, `_`, `-`,
/// `+`. It holds no delimiter of an object id.
pub open spec fn identifier(value: Seq<char>) -> bool {
    &&& value.len() > 0
    &&& alphanumeric(value[0])
    &&& forall|i: int| 0 <= i < value.len() ==> identifier_char(#[trigger] value[i])
}

/// Why a text is no identifier.
pub open spec fn identifier_refusal(label: Seq<char>, value: Seq<char>) -> Option<Seq<char>> {
    if identifier(value) {
        None
    } else {
        Some(
            label
                + " must start with an ASCII letter or digit and contain only letters, digits, '.', '_', '-', or '+'"@,
        )
    }
}

/// Admit an identifier.
pub fn validate_identifier(label: &str, value: &str) -> (result: Result<(), Error>)
    ensures
        refusal(result) == identifier_refusal(label@, value@),
        result is Ok <==> identifier(value@),
{
    let chars = chars_of(value);
    let mut valid = chars.len() > 0;
    let mut i: usize = 0;
    while i < chars.len()
        invariant
            chars@ == value@,
            i <= chars.len(),
            valid == (chars.len() > 0 && (i > 0 ==> alphanumeric(value@[0])) && forall|j: int|
                0 <= j < i ==> identifier_char(#[trigger] value@[j])),
        decreases chars.len() - i,
    {
        let c = chars[i];
        let plain = ('0' <= c && c <= '9') || ('A' <= c && c <= 'Z') || ('a' <= c && c <= 'z');
        if i == 0 {
            valid = valid && plain;
        } else {
            valid = valid && (plain || c == '.' || c == '_' || c == '-' || c == '+');
        }
        i = i + 1;
    }
    if valid {
        Ok(())
    } else {
        let mut message = label.to_owned();
        message.append(
            " must start with an ASCII letter or digit and contain only letters, digits, '.', '_', '-', or '+'",
        );
        Err(Error::new(message))
    }
}

/// The id of a product object.
pub fn product_id(name: &str) -> (id: String)
    ensures
        id@ == "tenkai:product:"@ + name@,
{
    let mut id = "tenkai:product:".to_owned();
    id.append(name);
    id
}

/// The id text of a release object.
pub open spec fn release_id_text(product: Seq<char>, version: Seq<char>) -> Seq<char> {
    "tenkai:release:"@ + product + "@"@ + version
}

/// The id of a release object.
pub fn release_id(product: &str, version: &str) -> (id: String)
    ensures
        id@ == release_id_text(product@, version@),
{
    let mut id = "tenkai:release:".to_owned();
    id.append(product);
    id.append("@");
    id.append(version);
    id
}

/// The id of the verification record of a release.
pub fn release_verification_id(release_id: &str) -> (id: String)
    ensures
        id@ == release_id@ + ":verification"@,
{
    let mut id = release_id.to_owned();
    id.append(":verification");
    id
}

/// The id text of a channel object.
pub open spec fn channel_id_text(product: Seq<char>, channel: Seq<char>) -> Seq<char> {
    "tenkai:channel:"@ + product + "/"@ + channel
}

/// The id of a channel object.
pub fn channel_id(product: &str, channel: &str) -> (id: String)
    ensures
        id@ == channel_id_text(product@, channel@),
{
    let mut id = "tenkai:channel:".to_owned();
    id.append(product);
    id.append("/");
    id.append(channel);
    id
}

/// The id of an environment object.
pub fn env_id(name: &str) -> (id: String)
    ensures
        id@ == "tenkai:env:"@ + name@,
{
    let mut id = "tenkai:env:".to_owned();
    id.append(name);
    id
}

/// The id text of a plan object.
pub open spec fn plan_id_text(env: Seq<char>, ts: i64, content_id: Seq<char>) -> Seq<char> {
    "tenkai:plan:"@ + env + ":"@ + decimal_int(ts as int) + ":"@ + content_id
}

/// The id of a plan object.
pub fn plan_id(env: &str, ts: i64, content_id: &str) -> (id: String)
    ensures
        id@ == plan_id_text(env@, ts, content_id@),
{
    let mut id = "tenkai:plan:".to_owned();
    id.append(env);
    id.append(":");
    id.append(decimal_int_text(ts).as_str());
    id.append(":");
    id.append(content_id);
    id
}

/// The id of a deployment object.
pub fn deployment_id(env: &str, product: &str, ts: i64) -> (id: String)
    ensures
        id@ == "tenkai:deployment:"@ + env@ + ":"@ + product@ + ":"@ + decimal_int(ts as int),
{
    let mut id = "tenkai:deployment:".to_owned();
    id.append(env);
    id.append(":");
    id.append(product);
    id.append(":");
    id.append(decimal_int_text(ts).as_str());
    id
}

/// Identifiers tell releases apart: no two pairs of product and version share
/// an object id.
pub proof fn release_ids_are_distinct(
    product: Seq<char>,
    version: Seq<char>,
    other_product: Seq<char>,
    other_version: Seq<char>,
)
    requires
        identifier(product),
        identifier(version),
        identifier(other_product),
        identifier(other_version),
        release_id_text(product, version) == release_id_text(other_product, other_version),
    ensures
        product == other_product,
        version == other_version,
{
    reveal_strlit("@");
    assert("@"@ =~= seq!['@']);
    lemma_delimited(
        "tenkai:release:"@,
        product,
        other_product,
        version,
        other_version,
        '@',
        "@"@,
    );
}

/// Identifiers tell channels apart: no two pairs of product and channel share
/// an object id.
pub proof fn channel_ids_are_distinct(
    product: Seq<char>,
    channel: Seq<char>,
    other_product: Seq<char>,
    other_channel: Seq<char>,
)
    requires
        identifier(product),
        identifier(channel),
        identifier(other_product),
        identifier(other_channel),
        channel_id_text(product, channel) == channel_id_text(other_product, other_channel),
    ensures
        product == other_product,
        channel == other_channel,
{
    reveal_strlit("/");
    assert("/"@ =~= seq!['/']);
    lemma_delimited(
        "tenkai:channel:"@,
        product,
        other_product,
        channel,
        other_channel,
        '/',
        "/"@,
    );
}

/// Two texts around a delimiter that neither first part holds are determined
/// by the whole.
pub proof fn lemma_delimited(
    head: Seq<char>,
    a: Seq<char>,
    b: Seq<char>,
    x: Seq<char>,
    y: Seq<char>,
    delimiter: char,
    middle: Seq<char>,
)
    requires
        middle == seq![delimiter],
        !a.contains(delimiter),
        !b.contains(delimiter),
        head + a + middle + x == head + b + middle + y,
    ensures
        a == b,
        x == y,
{
    let left = head + a + middle + x;
    let right = head + b + middle + y;
    let h = head.len() as int;
    assert(left[h + a.len()] == delimiter);
    assert(right[h + b.len()] == delimiter);
    if a.len() < b.len() {
        assert(right[h + a.len()] == b[a.len() as int]);
        assert(b.contains(delimiter));
    }
    if b.len() < a.len() {
        assert(left[h + b.len()] == a[b.len() as int]);
        assert(a.contains(delimiter));
    }
    assert forall|i: int| 0 <= i < a.len() implies a[i] == b[i] by {
        assert(left[h + i] == a[i]);
        assert(right[h + i] == b[i]);
    }
    assert(a =~= b);
    assert(left.len() == h + a.len() + 1 + x.len());
    assert(right.len() == h + b.len() + 1 + y.len());
    assert forall|i: int| 0 <= i < x.len() implies x[i] == y[i] by {
        assert(left[h + a.len() + 1 + i] == x[i]);
        assert(right[h + a.len() + 1 + i] == y[i]);
    }
    assert(x =~= y);
}

/// What a property definition says.
pub struct PropertyModel {
    pub name: Seq<char>,
    pub kind: Seq<char>,
    pub required: bool,
    pub description: Seq<char>,
    pub classification: Seq<char>,
}

impl View for PropertyDef {
    type V = PropertyModel;

    open spec fn view(&self) -> PropertyModel {
        PropertyModel {
            name: self.name@,
            kind: self.kind@,
            required: self.required,
            description: self.description@,
            classification: self.classification@,
        }
    }
}

/// What property definitions say, in order.
pub open spec fn property_models(list: Seq<PropertyDef>) -> Seq<PropertyModel> {
    list.map_values(|item: PropertyDef| item@)
}

/// What an object type says.
pub struct TypeModel {
    pub kind: Seq<char>,
    pub description: Seq<char>,
    pub properties: Seq<PropertyModel>,
    pub is_builtin: bool,
    pub implements: Seq<Seq<char>>,
}

impl View for ObjectType {
    type V = TypeModel;

    open spec fn view(&self) -> TypeModel {
        TypeModel {
            kind: self.kind@,
            description: self.description@,
            properties: property_models(self.properties@),
            is_builtin: self.is_builtin,
            implements: texts(self.implements@),
        }
    }
}

/// What object types say, in order.
pub open spec fn type_models(list: Seq<ObjectType>) -> Seq<TypeModel> {
    list.map_values(|item: ObjectType| item@)
}

/// A public text property.
pub open spec fn property_model(
    name: Seq<char>,
    required: bool,
    description: Seq<char>,
) -> PropertyModel {
    PropertyModel { name, kind: "string"@, required, description, classification: "public"@ }
}

/// An object type that is neither built in nor implements an interface.
pub open spec fn type_model(
    kind: Seq<char>,
    description: Seq<char>,
    properties: Seq<PropertyModel>,
) -> TypeModel {
    TypeModel {
        kind,
        description,
        properties,
        is_builtin: false,
        implements: Seq::<Seq<char>>::empty(),
    }
}

/// A public text property.
pub fn prop(name: &str, required: bool, description: &str) -> (property: PropertyDef)
    ensures
        property@ == property_model(name@, required, description@),
{
    PropertyDef {
        name: name.to_owned(),
        kind: "string".to_owned(),
        required,
        description: description.to_owned(),
        classification: "public".to_owned(),
    }
}

/// An object type with the given properties.
pub fn object_type(kind: &str, description: &str, properties: Vec<PropertyDef>) -> (schema:
    ObjectType)
    ensures
        schema@ == type_model(kind@, description@, property_models(properties@)),
{
    let implements: Vec<String> = Vec::new();
    let schema = ObjectType {
        kind: kind.to_owned(),
        description: description.to_owned(),
        properties,
        is_builtin: false,
        implements,
    };
    assert(schema@.implements =~= Seq::<Seq<char>>::empty());
    schema
}

/// What a parameter of an action says.
pub struct ParamModel {
    pub name: Seq<char>,
    pub kind: Seq<char>,
    pub required: bool,
    pub enum_values: Seq<Seq<char>>,
}

impl View for ActionParamDef {
    type V = ParamModel;

    open spec fn view(&self) -> ParamModel {
        ParamModel {
            name: self.name@,
            kind: self.kind@,
            required: self.required,
            enum_values: texts(self.enum_values@),
        }
    }
}

/// What one effect of an action says.
pub struct OpModel {
    pub op: Seq<char>,
    pub property: Seq<char>,
    pub value_from: Seq<char>,
    pub relation: Seq<char>,
}

impl View for ActionOp {
    type V = OpModel;

    open spec fn view(&self) -> OpModel {
        OpModel {
            op: self.op@,
            property: self.property@,
            value_from: self.value_from@,
            relation: self.relation@,
        }
    }
}

/// What an action says.
pub struct ActionModel {
    pub name: Seq<char>,
    pub description: Seq<char>,
    pub params: Seq<ParamModel>,
    pub ops: Seq<OpModel>,
    pub target_kind: Seq<char>,
    pub created: i64,
}

impl View for ActionTypeDef {
    type V = ActionModel;

    open spec fn view(&self) -> ActionModel {
        ActionModel {
            name: self.name@,
            description: self.description@,
            params: self.params@.map_values(|item: ActionParamDef| item@),
            ops: self.ops@.map_values(|item: ActionOp| item@),
            target_kind: self.target_kind@,
            created: self.created,
        }
    }
}

/// A required text parameter.
pub open spec fn param_model(name: Seq<char>) -> ParamModel {
    ParamModel {
        name,
        kind: "string"@,
        required: true,
        enum_values: Seq::<Seq<char>>::empty(),
    }
}

/// A required text parameter.
pub fn string_param(name: &str) -> (param: ActionParamDef)
    ensures
        param@ == param_model(name@),
{
    let enum_values: Vec<String> = Vec::new();
    let param = ActionParamDef {
        name: name.to_owned(),
        kind: "string".to_owned(),
        required: true,
        enum_values,
    };
    assert(param@.enum_values =~= Seq::<Seq<char>>::empty());
    param
}

/// An effect that copies a parameter into a property.
pub open spec fn set_model(property: Seq<char>, value_from: Seq<char>) -> OpModel {
    OpModel { op: "set_property"@, property, value_from, relation: ""@ }
}

fn set_property(property: &str, value_from: &str) -> (op: ActionOp)
    ensures
        op@ == set_model(property@, value_from@),
{
    ActionOp {
        op: "set_property".to_owned(),
        property: property.to_owned(),
        value_from: value_from.to_owned(),
        relation: "".to_owned(),
    }
}

/// An effect that links the target to a channel.
pub open spec fn subscribe_model() -> OpModel {
    OpModel {
        op: "create_link"@,
        property: "channel_id"@,
        value_from: ""@,
        relation: REL_SUBSCRIBES@,
    }
}

fn subscribe_link() -> (op: ActionOp)
    ensures
        op@ == subscribe_model(),
{
    ActionOp {
        op: "create_link".to_owned(),
        property: "channel_id".to_owned(),
        value_from: "".to_owned(),
        relation: REL_SUBSCRIBES.to_owned(),
    }
}

/// The action that replaces the maintenance windows of an environment.
pub open spec fn configure_maintenance_model(created: i64) -> ActionModel {
    ActionModel {
        name: ACTION_CONFIGURE_MAINTENANCE@,
        description: "Authorize and replace an environment's maintenance windows"@,
        params: seq![
            param_model("environment"@),
            param_model("windows"@),
            param_model("revision"@),
            param_model("correlation"@),
        ],
        ops: seq![
            set_model("environment"@, "environment"@),
            set_model("windows"@, "windows"@),
            set_model("revision"@, "revision"@),
            set_model("last_update_correlation"@, "correlation"@),
        ],
        target_kind: KIND_MAINTENANCE_CONFIG@,
        created,
    }
}

/// The action that replaces the maintenance windows of an environment.
pub fn configure_maintenance_action(created: i64) -> (action: ActionTypeDef)
    ensures
        action@ == configure_maintenance_model(created),
{
    let mut params: Vec<ActionParamDef> = Vec::new();
    params.push(string_param("environment"));
    params.push(string_param("windows"));
    params.push(string_param("revision"));
    params.push(string_param("correlation"));
    let mut ops: Vec<ActionOp> = Vec::new();
    ops.push(set_property("environment", "environment"));
    ops.push(set_property("windows", "windows"));
    ops.push(set_property("revision", "revision"));
    ops.push(set_property("last_update_correlation", "correlation"));
    let action = ActionTypeDef {
        name: ACTION_CONFIGURE_MAINTENANCE.to_owned(),
        description: "Authorize and replace an environment's maintenance windows".to_owned(),
        params,
        ops,
        target_kind: KIND_MAINTENANCE_CONFIG.to_owned(),
        created,
    };
    assert(action@.params =~= configure_maintenance_model(created).params);
    assert(action@.ops =~= configure_maintenance_model(created).ops);
    action
}

/// The governed actions, in registration order.
pub open spec fn action_models(created: i64) -> Seq<ActionModel> {
    seq![
        ActionModel {
            name: ACTION_SUBSCRIBE@,
            description: "Authorize and create an environment channel subscription"@,
            params: seq![param_model("channel_id"@)],
            ops: seq![subscribe_model()],
            target_kind: KIND_ENVIRONMENT@,
            created,
        },
        configure_maintenance_model(created),
        ActionModel {
            name: ACTION_EMERGENCY_OVERRIDE@,
            description: "Authorize and audit an emergency maintenance-window override"@,
            params: seq![param_model("reason"@), param_model("correlation"@)],
            ops: seq![
                set_model("last_emergency_override_reason"@, "reason"@),
                set_model("last_emergency_override_correlation"@, "correlation"@),
            ],
            target_kind: KIND_PLAN@,
            created,
        },
        ActionModel {
            name: ACTION_REPLACE_SUBSCRIPTION@,
            description: "Authorize and atomically replace an environment channel subscription"@,
            params: seq![param_model("channel_id"@), param_model("old_link_id"@)],
            ops: seq![
                subscribe_model(),
                OpModel {
                    op: "delete_link"@,
                    property: ""@,
                    value_from: "old_link_id"@,
                    relation: ""@,
                },
            ],
            target_kind: KIND_ENVIRONMENT@,
            created,
        },
    ]
}

fn action(
    name: &str,
    description: &str,
    params: Vec<ActionParamDef>,
    ops: Vec<ActionOp>,
    target_kind: &str,
    created: i64,
) -> (definition: ActionTypeDef)
    ensures
        definition@ == (ActionModel {
            name: name@,
            description: description@,
            params: params@.map_values(|item: ActionParamDef| item@),
            ops: ops@.map_values(|item: ActionOp| item@),
            target_kind: target_kind@,
            created,
        }),
{
    ActionTypeDef {
        name: name.to_owned(),
        description: description.to_owned(),
        params,
        ops,
        target_kind: target_kind.to_owned(),
        created,
    }
}

/// The governed actions, in registration order.
pub fn action_types(created: i64) -> (actions: Vec<ActionTypeDef>)
    ensures
        actions@.map_values(|item: ActionTypeDef| item@) == action_models(created),
{
    let mut params: Vec<ActionParamDef> = Vec::new();
    params.push(string_param("channel_id"));
    let mut ops: Vec<ActionOp> = Vec::new();
    ops.push(subscribe_link());
    let subscribe = action(
        ACTION_SUBSCRIBE,
        "Authorize and create an environment channel subscription",
        params,
        ops,
        KIND_ENVIRONMENT,
        created,
    );
    assert(subscribe@.params =~= action_models(created)[0].params);
    assert(subscribe@.ops =~= action_models(created)[0].ops);
    let mut params: Vec<ActionParamDef> = Vec::new();
    params.push(string_param("reason"));
    params.push(string_param("correlation"));
    let mut ops: Vec<ActionOp> = Vec::new();
    ops.push(set_property("last_emergency_override_reason", "reason"));
    ops.push(set_property("last_emergency_override_correlation", "correlation"));
    let emergency = action(
        ACTION_EMERGENCY_OVERRIDE,
        "Authorize and audit an emergency maintenance-window override",
        params,
        ops,
        KIND_PLAN,
        created,
    );
    assert(emergency@.params =~= action_models(created)[2].params);
    assert(emergency@.ops =~= action_models(created)[2].ops);
    let mut params: Vec<ActionParamDef> = Vec::new();
    params.push(string_param("channel_id"));
    params.push(string_param("old_link_id"));
    let mut ops: Vec<ActionOp> = Vec::new();
    ops.push(subscribe_link());
    ops.push(
        ActionOp {
            op: "delete_link".to_owned(),
            property: "".to_owned(),
            value_from: "old_link_id".to_owned(),
            relation: "".to_owned(),
        },
    );
    let replace = action(
        ACTION_REPLACE_SUBSCRIPTION,
        "Authorize and atomically replace an environment channel subscription",
        params,
        ops,
        KIND_ENVIRONMENT,
        created,
    );
    assert(replace@.params =~= action_models(created)[3].params);
    assert(replace@.ops =~= action_models(created)[3].ops);
    let mut actions: Vec<ActionTypeDef> = Vec::new();
    actions.push(subscribe);
    actions.push(configure_maintenance_action(created));
    actions.push(emergency);
    actions.push(replace);
    assert(actions@.map_values(|item: ActionTypeDef| item@) =~= action_models(created));
    actions
}

/// Two properties agree in name, type and requiredness.
pub open spec fn compatible(left: PropertyModel, right: PropertyModel) -> bool {
    left.name == right.name && left.kind == right.kind && left.required == right.required
}

/// A type has every property of another, compatibly.
pub open spec fn includes(actual: TypeModel, expected: TypeModel) -> bool {
    forall|i: int|
        0 <= i < expected.properties.len() ==> has_compatible(
            actual.properties,
            #[trigger] expected.properties[i],
        )
}

/// A list of properties has one that is compatible with another.
pub open spec fn has_compatible(list: Seq<PropertyModel>, wanted: PropertyModel) -> bool {
    exists|j: int| 0 <= j < list.len() && compatible(#[trigger] list[j], wanted)
}

/// Tell whether a type has every property of another, compatibly.
pub fn schema_includes(actual: &ObjectType, expected: &ObjectType) -> (answer: bool)
    ensures
        answer == includes(actual@, expected@),
{
    let mut i: usize = 0;
    while i < expected.properties.len()
        invariant
            i <= expected.properties.len(),
            forall|k: int|
                0 <= k < i ==> has_compatible(
                    actual@.properties,
                    #[trigger] expected@.properties[k],
                ),
        decreases expected.properties.len() - i,
    {
        let wanted = &expected.properties[i];
        let mut found = false;
        let mut j: usize = 0;
        while j < actual.properties.len() && !found
            invariant
                j <= actual.properties.len(),
                wanted@ == expected@.properties[i as int],
                found ==> has_compatible(actual@.properties, wanted@),
                !found ==> forall|k: int|
                    0 <= k < j ==> !compatible(#[trigger] actual@.properties[k], wanted@),
            decreases actual.properties.len() - j,
        {
            let candidate = &actual.properties[j];
            assert(candidate@ == actual@.properties[j as int]);
            if same(&candidate.name, &wanted.name) && same(&candidate.kind, &wanted.kind)
                && candidate.required == wanted.required {
                found = true;
            }
            j = j + 1;
        }
        assert(wanted@ == expected@.properties[i as int]);
        if !found {
            assert(!has_compatible(actual@.properties, expected@.properties[i as int]));
            return false;
        }
        i = i + 1;
    }
    true
}

/// The position of the first property with a name, or the length of the list.
pub open spec fn named_at(list: Seq<PropertyModel>, name: Seq<char>) -> int
    decreases list.len(),
{
    if list.len() == 0 {
        0
    } else if list[0].name == name {
        0
    } else {
        1 + named_at(list.drop_first(), name)
    }
}

proof fn lemma_named_at(list: Seq<PropertyModel>, name: Seq<char>, at: int)
    requires
        0 <= at <= list.len(),
        at < list.len() ==> list[at].name == name,
        forall|k: int| 0 <= k < at ==> (#[trigger] list[k]).name != name,
    ensures
        named_at(list, name) == at,
    decreases list.len(),
{
    if list.len() > 0 && at > 0 {
        assert(list[0].name != name);
        assert forall|k: int| 0 <= k < at - 1 implies (#[trigger] list.drop_first()[k]).name
            != name by {
            assert(list.drop_first()[k] == list[k + 1]);
        }
        lemma_named_at(list.drop_first(), name, at - 1);
    }
}

/// A property of a type stands in the way of an expected one.
pub open spec fn conflicts(actual: TypeModel, expected: PropertyModel) -> bool {
    let at = named_at(actual.properties, expected.name);
    at < actual.properties.len() && !compatible(actual.properties[at], expected)
}

/// The word for a truth value.
pub open spec fn truth(value: bool) -> Seq<char> {
    if value {
        "true"@
    } else {
        "false"@
    }
}

fn truth_text(value: bool) -> (text: &'static str)
    ensures
        text@ == truth(value),
{
    if value {
        "true"
    } else {
        "false"
    }
}

/// The refusal of an incompatible property.
pub open spec fn conflict_text(actual: TypeModel, expected: PropertyModel) -> Seq<char> {
    let found = actual.properties[named_at(actual.properties, expected.name)];
    "schema type "@ + actual.kind + " has incompatible property "@ + expected.name
        + " (expected type "@ + quoted(expected.kind) + ", required "@ + truth(expected.required)
        + "; found type "@ + quoted(found.kind) + ", required "@ + truth(found.required) + ")"@
}

/// Why a type cannot take on the first expected properties.
pub open spec fn evolution_refusal(
    actual: TypeModel,
    expected: Seq<PropertyModel>,
) -> Option<Seq<char>>
    decreases expected.len(),
{
    if expected.len() == 0 {
        None
    } else {
        let before = evolution_refusal(actual, expected.drop_last());
        if before is Some {
            before
        } else if conflicts(actual, expected.last()) {
            Some(conflict_text(actual, expected.last()))
        } else {
            None
        }
    }
}

/// The expected properties that a type has none of that name for, in order.
pub open spec fn missing_properties(
    actual: TypeModel,
    expected: Seq<PropertyModel>,
) -> Seq<PropertyModel>
    decreases expected.len(),
{
    if expected.len() == 0 {
        Seq::<PropertyModel>::empty()
    } else {
        let before = missing_properties(actual, expected.drop_last());
        if named_at(actual.properties, expected.last().name) == actual.properties.len() {
            before.push(expected.last())
        } else {
            before
        }
    }
}

/// A type with the expected properties it lacked added behind its own.
pub open spec fn evolved(actual: TypeModel, expected: TypeModel) -> TypeModel {
    TypeModel {
        properties: actual.properties + missing_properties(actual, expected.properties),
        ..actual
    }
}

/// A copy of a property definition.
pub fn copy_property(property: &PropertyDef) -> (copy: PropertyDef)
    ensures
        copy@ == property@,
{
    PropertyDef {
        name: property.name.clone(),
        kind: property.kind.clone(),
        required: property.required,
        description: property.description.clone(),
        classification: property.classification.clone(),
    }
}

/// A copy of an object type.
pub fn copy_type(schema: &ObjectType) -> (copy: ObjectType)
    ensures
        copy@ == schema@,
{
    let mut properties: Vec<PropertyDef> = Vec::new();
    let mut i: usize = 0;
    while i < schema.properties.len()
        invariant
            i <= schema.properties.len(),
            properties@.len() == i,
            forall|j: int| 0 <= j < i ==> (#[trigger] properties@[j])@ == schema.properties@[j]@,
        decreases schema.properties.len() - i,
    {
        properties.push(copy_property(&schema.properties[i]));
        i = i + 1;
    }
    let copy = ObjectType {
        kind: schema.kind.clone(),
        description: schema.description.clone(),
        properties,
        is_builtin: schema.is_builtin,
        implements: copy_texts(&schema.implements),
    };
    assert(copy@.properties =~= schema@.properties);
    copy
}

/// Extend a stored type with the expected properties it lacks.
pub fn evolve_schema(actual: &ObjectType, expected: &ObjectType) -> (result: Result<
    ObjectType,
    Error,
>)
    ensures
        refusal(result) == evolution_refusal(actual@, expected@.properties),
        result matches Ok(schema) ==> schema@ == evolved(actual@, expected@),
{
    let mut schema = copy_type(actual);
    let ghost wanted = expected@.properties;
    let mut i: usize = 0;
    assert(wanted.take(0) =~= Seq::<PropertyModel>::empty());
    assert(schema@.properties =~= actual@.properties + missing_properties(actual@, wanted.take(0)));
    while i < expected.properties.len()
        invariant
            i <= expected.properties.len(),
            wanted == expected@.properties,
            evolution_refusal(actual@, wanted.take(i as int)) is None,
            schema@ == (TypeModel {
                properties: actual@.properties + missing_properties(actual@, wanted.take(i as int)),
                ..actual@
            }),
        decreases expected.properties.len() - i,
    {
        let property = &expected.properties[i];
        assert(property@ == wanted[i as int]);
        assert(wanted.take(i + 1).drop_last() =~= wanted.take(i as int));
        assert(wanted.take(i + 1).last() == property@);
        let mut at: usize = 0;
        while at < actual.properties.len() && !same(&actual.properties[at].name, &property.name)
            invariant
                at <= actual.properties.len(),
                forall|k: int|
                    0 <= k < at ==> (#[trigger] actual@.properties[k]).name != property@.name,
            decreases actual.properties.len() - at,
        {
            assert(actual@.properties[at as int] == actual.properties@[at as int]@);
            at = at + 1;
        }
        proof {
            if at < actual.properties.len() {
                assert(actual@.properties[at as int] == actual.properties@[at as int]@);
            }
            lemma_named_at(actual@.properties, property@.name, at as int);
        }
        if at < actual.properties.len() {
            let found = &actual.properties[at];
            if !same(&found.kind, &property.kind) || found.required != property.required {
                let mut message = "schema type ".to_owned();
                message.append(actual.kind.as_str());
                message.append(" has incompatible property ");
                message.append(property.name.as_str());
                message.append(" (expected type ");
                message.append(quote(property.kind.as_str()).as_str());
                message.append(", required ");
                message.append(truth_text(property.required));
                message.append("; found type ");
                message.append(quote(found.kind.as_str()).as_str());
                message.append(", required ");
                message.append(truth_text(found.required));
                message.append(")");
                proof {
                    lemma_evolution_stops(actual@, wanted, i as int);
                }
                return Err(Error::new(message));
            }
        } else {
            let ghost before = schema.properties@;
            schema.properties.push(copy_property(property));
            assert(property_models(schema.properties@) =~= property_models(before).push(property@));
        }
        i = i + 1;
        assert(schema@.properties =~= actual@.properties + missing_properties(
            actual@,
            wanted.take(i as int),
        ));
    }
    assert(wanted.take(i as int) =~= wanted);
    Ok(schema)
}

proof fn lemma_evolution_stops(actual: TypeModel, expected: Seq<PropertyModel>, at: int)
    requires
        0 <= at < expected.len(),
        evolution_refusal(actual, expected.take(at + 1)) is Some,
    ensures
        evolution_refusal(actual, expected) == evolution_refusal(actual, expected.take(at + 1)),
    decreases expected.len() - at,
{
    if at + 1 == expected.len() {
        assert(expected.take(at + 1) =~= expected);
    } else {
        assert(expected.take(at + 2).drop_last() =~= expected.take(at + 1));
        lemma_evolution_stops(actual, expected, at + 1);
    }
}

/// A type keeps everything that another says, perhaps with more properties.
pub open spec fn preserves(actual: TypeModel, expected: TypeModel) -> bool {
    &&& actual.kind == expected.kind
    &&& actual.description == expected.description
    &&& actual.is_builtin == expected.is_builtin
    &&& actual.implements == expected.implements
    &&& forall|i: int|
        0 <= i < expected.properties.len() ==> actual.properties.contains(
            #[trigger] expected.properties[i],
        )
}

fn same_property(left: &PropertyDef, right: &PropertyDef) -> (answer: bool)
    ensures
        answer == (left@ == right@),
{
    same(&left.name, &right.name) && same(&left.kind, &right.kind) && left.required
        == right.required && same(&left.description, &right.description) && same(
        &left.classification,
        &right.classification,
    )
}

fn same_texts(left: &Vec<String>, right: &Vec<String>) -> (answer: bool)
    ensures
        answer == (texts(left@) == texts(right@)),
{
    if left.len() != right.len() {
        assert(texts(left@).len() != texts(right@).len());
        return false;
    }
    let mut i: usize = 0;
    while i < left.len()
        invariant
            i <= left.len(),
            left.len() == right.len(),
            forall|j: int| 0 <= j < i ==> left@[j]@ == right@[j]@,
        decreases left.len() - i,
    {
        if !same(&left[i], &right[i]) {
            assert(texts(left@)[i as int] != texts(right@)[i as int]);
            return false;
        }
        i = i + 1;
    }
    assert(texts(left@) =~= texts(right@));
    true
}

/// Tell whether a type keeps everything that another says.
pub fn schema_preserves(actual: &ObjectType, expected: &ObjectType) -> (answer: bool)
    ensures
        answer == preserves(actual@, expected@),
{
    if !(same(&actual.kind, &expected.kind) && same(&actual.description, &expected.description)
        && actual.is_builtin == expected.is_builtin && same_texts(
        &actual.implements,
        &expected.implements,
    )) {
        return false;
    }
    let mut i: usize = 0;
    while i < expected.properties.len()
        invariant
            i <= expected.properties.len(),
            forall|k: int|
                0 <= k < i ==> actual@.properties.contains(#[trigger] expected@.properties[k]),
        decreases expected.properties.len() - i,
    {
        let wanted = &expected.properties[i];
        assert(wanted@ == expected@.properties[i as int]);
        let mut found = false;
        let mut j: usize = 0;
        while j < actual.properties.len() && !found
            invariant
                j <= actual.properties.len(),
                found ==> actual@.properties.contains(wanted@),
                !found ==> forall|k: int|
                    0 <= k < j ==> (#[trigger] actual@.properties[k]) != wanted@,
            decreases actual.properties.len() - j,
        {
            assert(actual@.properties[j as int] == actual.properties@[j as int]@);
            if same_property(&actual.properties[j], wanted) {
                found = true;
            }
            j = j + 1;
        }
        if !found {
            assert(!actual@.properties.contains(expected@.properties[i as int]));
            return false;
        }
        i = i + 1;
    }
    true
}

/// An evolved type has every expected property and keeps everything that the
/// stored type said.
pub proof fn evolution_includes_and_preserves(actual: TypeModel, expected: TypeModel)
    requires
        evolution_refusal(actual, expected.properties) is None,
    ensures
        includes(evolved(actual, expected), expected),
        preserves(evolved(actual, expected), actual),
{
    let result = evolved(actual, expected);
    let missing = missing_properties(actual, expected.properties);
    assert forall|i: int| 0 <= i < actual.properties.len() implies result.properties.contains(
        #[trigger] actual.properties[i],
    ) by {
        assert(result.properties[i] == actual.properties[i]);
    }
    assert forall|i: int| 0 <= i < expected.properties.len() implies has_compatible(
        result.properties,
        #[trigger] expected.properties[i],
    ) by {
        lemma_evolution_covers(actual, expected.properties, i);
        let at = named_at(actual.properties, expected.properties[i].name);
        lemma_named_at_bounds(actual.properties, expected.properties[i].name);
        if at < actual.properties.len() {
            assert(result.properties[at] == actual.properties[at]);
            assert(compatible(result.properties[at], expected.properties[i]));
        } else {
            let k = missing.index_of(expected.properties[i]);
            assert(missing[k] == expected.properties[i]);
            assert(result.properties[actual.properties.len() + k] == expected.properties[i]);
        }
    }
}

proof fn lemma_named_at_bounds(list: Seq<PropertyModel>, name: Seq<char>)
    ensures
        0 <= named_at(list, name) <= list.len(),
    decreases list.len(),
{
    if list.len() > 0 && list[0].name != name {
        lemma_named_at_bounds(list.drop_first(), name);
    }
}

proof fn lemma_evolution_covers(actual: TypeModel, expected: Seq<PropertyModel>, i: int)
    requires
        0 <= i < expected.len(),
        evolution_refusal(actual, expected) is None,
    ensures
        !conflicts(actual, expected[i]),
        named_at(actual.properties, expected[i].name) == actual.properties.len()
            ==> missing_properties(actual, expected).contains(expected[i]),
    decreases expected.len(),
{
    let before = missing_properties(actual, expected.drop_last());
    let all = missing_properties(actual, expected);
    if i + 1 == expected.len() {
        if named_at(actual.properties, expected[i].name) == actual.properties.len() {
            assert(all.last() == expected[i]);
        }
    } else {
        lemma_evolution_covers(actual, expected.drop_last(), i);
        assert(expected.drop_last()[i] == expected[i]);
        if before.contains(expected[i]) {
            let k = before.index_of(expected[i]);
            assert(all[k] == expected[i]);
        }
    }
}

/// What is to be done about one object type at registration.
#[derive(Debug, PartialEq, Eq)]
pub enum Registration {
    /// The stored type has every expected property.
    Keep,
    /// The type is to be created, or replaced by its evolution.
    Create(ObjectType),
}

/// The first stored type of a kind, where there is one.
pub open spec fn stored_type(types: Seq<TypeModel>, kind: Seq<char>) -> Option<TypeModel>
    decreases types.len(),
{
    if types.len() == 0 {
        None
    } else if types[0].kind == kind {
        Some(types[0])
    } else {
        stored_type(types.drop_first(), kind)
    }
}

proof fn lemma_stored_type(types: Seq<TypeModel>, kind: Seq<char>, at: int)
    requires
        0 <= at <= types.len(),
        at < types.len() ==> types[at].kind == kind,
        forall|k: int| 0 <= k < at ==> (#[trigger] types[k]).kind != kind,
    ensures
        stored_type(types, kind) == (if at < types.len() {
            Some(types[at])
        } else {
            None
        }),
    decreases types.len(),
{
    if types.len() > 0 && at > 0 {
        assert(types[0].kind != kind);
        assert forall|k: int| 0 <= k < at - 1 implies (#[trigger] types.drop_first()[k]).kind
            != kind by {
            assert(types.drop_first()[k] == types[k + 1]);
        }
        lemma_stored_type(types.drop_first(), kind, at - 1);
    }
}

fn find_type<'a>(types: &'a Vec<ObjectType>, kind: &str) -> (found: Option<&'a ObjectType>)
    ensures
        match found {
            Some(schema) => stored_type(type_models(types@), kind@) == Some(schema@),
            None => stored_type(type_models(types@), kind@) is None,
        },
{
    let ghost models = type_models(types@);
    let mut i: usize = 0;
    while i < types.len()
        invariant
            i <= types.len(),
            models == type_models(types@),
            forall|k: int| 0 <= k < i ==> (#[trigger] models[k]).kind != kind@,
        decreases types.len() - i,
    {
        assert(models[i as int] == types@[i as int]@);
        if same(&types[i].kind, kind) {
            proof {
                lemma_stored_type(models, kind@, i as int);
            }
            return Some(&types[i]);
        }
        i = i + 1;
    }
    proof {
        lemma_stored_type(models, kind@, i as int);
    }
    None
}

/// Decide what to do about one expected type, given the stored types.
pub fn plan_registration(current: &Vec<ObjectType>, expected: &ObjectType) -> (result: Result<
    Registration,
    Error,
>)
    ensures
        match stored_type(type_models(current@), expected@.kind) {
            None => result matches Ok(Registration::Create(schema)) && schema@ == expected@,
            Some(stored) => if includes(stored, expected@) {
                result matches Ok(Registration::Keep)
            } else {
                &&& refusal(result) == evolution_refusal(stored, expected@.properties)
                &&& result matches Ok(decision) ==> decision matches Registration::Create(schema)
                    && schema@ == evolved(stored, expected@)
            },
        },
{
    match find_type(current, expected.kind.as_str()) {
        None => Ok(Registration::Create(copy_type(expected))),
        Some(stored) => {
            if schema_includes(stored, expected) {
                Ok(Registration::Keep)
            } else {
                match evolve_schema(stored, expected) {
                    Err(error) => Err(error),
                    Ok(schema) => Ok(Registration::Create(schema)),
                }
            }
        },
    }
}

/// The store holds a type as it was registered.
pub open spec fn registered(types: Seq<TypeModel>, expected: TypeModel, schema: TypeModel) -> bool {
    match stored_type(types, expected.kind) {
        Some(stored) => includes(stored, expected) && preserves(stored, schema),
        None => false,
    }
}

fn is_registered(refreshed: &Vec<ObjectType>, expected: &ObjectType, schema: &ObjectType) -> (answer:
    bool)
    ensures
        answer == registered(type_models(refreshed@), expected@, schema@),
{
    match find_type(refreshed, expected.kind.as_str()) {
        Some(stored) => schema_includes(stored, expected) && schema_preserves(stored, schema),
        None => false,
    }
}

/// Settle a registration from the store as it is after the attempt. The kind
/// counts as registered where this attempt created it; where another writer
/// did, the type must still be as expected.
pub fn confirm_registration(
    refreshed: &Vec<ObjectType>,
    expected: &ObjectType,
    schema: &ObjectType,
    created: bool,
) -> (result: Result<bool, Error>)
    ensures
        registered(type_models(refreshed@), expected@, schema@) ==> result == Ok::<bool, Error>(
            created,
        ),
        !registered(type_models(refreshed@), expected@, schema@) ==> refusal(result) == Some(
            if created {
                "schema type "@ + expected@.kind
                    + " was replaced during concurrent initialization; rerun tenkaictl init"@
            } else {
                "sekai backend cannot evolve existing schema type "@ + expected@.kind
                    + "; upgrade sekai-chisei and rerun tenkaictl init"@
            },
        ),
{
    if is_registered(refreshed, expected, schema) {
        Ok(created)
    } else if created {
        let mut message = "schema type ".to_owned();
        message.append(expected.kind.as_str());
        message.append(" was replaced during concurrent initialization; rerun tenkaictl init");
        Err(Error::new(message))
    } else {
        let mut message = "sekai backend cannot evolve existing schema type ".to_owned();
        message.append(expected.kind.as_str());
        message.append("; upgrade sekai-chisei and rerun tenkaictl init");
        Err(Error::new(message))
    }
}

/// The kinds that the canary rules need, in order.
pub open spec fn canary_kinds() -> Seq<Seq<char>> {
    seq![
        KIND_CANARY_DESIGNATION@,
        KIND_CANARY_POLICY@,
        KIND_CANARY_POLICY_POINTER@,
        KIND_CANARY_ATTEMPT@,
        KIND_CANARY_OUTCOME@,
        KIND_PROMOTION_AUDIT@,
        KIND_PROMOTION_LOCK@,
    ]
}

/// The kinds of a list that no stored type has, in order.
pub open spec fn missing_kinds(required: Seq<Seq<char>>, types: Seq<TypeModel>) -> Seq<Seq<char>>
    decreases required.len(),
{
    if required.len() == 0 {
        Seq::<Seq<char>>::empty()
    } else {
        let before = missing_kinds(required.drop_last(), types);
        if stored_type(types, required.last()) is None {
            before.push(required.last())
        } else {
            before
        }
    }
}

/// Require every kind that the canary rules need.
pub fn require_canary_schema(schemas: &Vec<ObjectType>) -> (result: Result<(), Error>)
    ensures
        ({
            let missing = missing_kinds(canary_kinds(), type_models(schemas@));
            refusal(result) == (if missing.len() == 0 {
                None
            } else {
                Some(
                    "canary schema upgrade required (missing "@ + joined(missing, ", "@)
                        + "); ask an administrator to run `tenkaictl init`"@,
                )
            })
        }),
{
    let mut required: Vec<String> = Vec::new();
    required.push(KIND_CANARY_DESIGNATION.to_owned());
    required.push(KIND_CANARY_POLICY.to_owned());
    required.push(KIND_CANARY_POLICY_POINTER.to_owned());
    required.push(KIND_CANARY_ATTEMPT.to_owned());
    required.push(KIND_CANARY_OUTCOME.to_owned());
    required.push(KIND_PROMOTION_AUDIT.to_owned());
    required.push(KIND_PROMOTION_LOCK.to_owned());
    assert(texts(required@) =~= canary_kinds());
    let mut missing: Vec<String> = Vec::new();
    let mut i: usize = 0;
    assert(texts(missing@) =~= missing_kinds(canary_kinds().take(0), type_models(schemas@)));
    while i < required.len()
        invariant
            i <= required.len(),
            texts(required@) == canary_kinds(),
            texts(missing@) == missing_kinds(canary_kinds().take(i as int), type_models(schemas@)),
        decreases required.len() - i,
    {
        let ghost prefix = canary_kinds().take(i + 1);
        assert(texts(required@)[i as int] == required@[i as int]@);
        assert(prefix.drop_last() =~= canary_kinds().take(i as int));
        assert(prefix.last() == required@[i as int]@);
        if find_type(schemas, required[i].as_str()).is_none() {
            let ghost before = texts(missing@);
            missing.push(required[i].clone());
            assert(texts(missing@) =~= before.push(required@[i as int]@));
        }
        i = i + 1;
    }
    assert(canary_kinds().take(i as int) =~= canary_kinds());
    assert(texts(missing@).len() == missing@.len());
    if missing.len() == 0 {
        Ok(())
    } else {
        let mut message = "canary schema upgrade required (missing ".to_owned();
        message.append(join(&missing, ", ").as_str());
        message.append("); ask an administrator to run `tenkaictl init`");
        Err(Error::new(message))
    }
}

/// The type of `KIND_PRODUCT` objects.
pub open spec fn product_model() -> TypeModel {
    type_model(
        KIND_PRODUCT@,
        "A deliverable unit of software or intelligence artifacts"@,
        seq![
            property_model("description"@, false, "What this product is"@),
        ],
    )
}

/// The type of `KIND_RELEASE` objects.
pub open spec fn release_model() -> TypeModel {
    type_model(
        KIND_RELEASE@,
        "An immutable, digest-pinned version of a product"@,
        seq![
            property_model("product"@, true, "Product name"@),
            property_model("version"@, true, "Release version"@),
            property_model("digest"@, true, "sha256 of the manifest content"@),
            property_model("artifact_digest"@, true, "sha256 tree digest of the immutable deployment workdir"@),
            property_model("manifest"@, true, "Raw manifest as published"@),
            property_model("workdir"@, false, "Absolute workdir for deploy commands"@),
            property_model("verification_status"@, false, "verified|unsigned-development publication trust result"@),
            property_model("signature_algorithm"@, false, "Signature algorithm or none for unsigned development"@),
            property_model("signer_identity"@, false, "Trusted signer identity"@),
            property_model("signer_key_id"@, false, "Trusted signer public-key digest"@),
            property_model("signature_statement_digest"@, false, "sha256 of the canonical signed release statement"@),
            property_model("signature_envelope"@, false, "Detached signature envelope retained for reverification"@),
            property_model("provenance"@, false, "Canonical signed provenance JSON"@),
        ],
    )
}

/// The type of `KIND_RELEASE_VERIFICATION` objects.
pub open spec fn release_verification_model() -> TypeModel {
    type_model(
        KIND_RELEASE_VERIFICATION@,
        "An immutable first-writer claim for legacy release verification evidence"@,
        seq![
            property_model("release_id"@, true, "Verified release object id"@),
            property_model("verification_status"@, true, "verified"@),
            property_model("signature_algorithm"@, true, "Signature algorithm"@),
            property_model("signer_identity"@, true, "Trusted signer identity"@),
            property_model("signer_key_id"@, true, "Trusted signer public-key digest"@),
            property_model("signature_statement_digest"@, true, "sha256 of the canonical signed release statement"@),
            property_model("signature_envelope"@, true, "Detached signature envelope"@),
            property_model("provenance"@, true, "Canonical signed provenance JSON"@),
        ],
    )
}

/// The type of `KIND_CHANNEL` objects.
pub open spec fn channel_model() -> TypeModel {
    type_model(
        KIND_CHANNEL@,
        "A named release stream of a product (dev/canary/stable)"@,
        seq![
            property_model("product"@, true, "Product name"@),
            property_model("channel"@, true, "Channel name"@),
            property_model("current_version"@, false, "Version the channel points at"@),
            property_model("current_release"@, false, "Release object id the channel points at"@),
        ],
    )
}

/// The type of `KIND_ENVIRONMENT` objects.
pub open spec fn environment_model() -> TypeModel {
    type_model(
        KIND_ENVIRONMENT@,
        "A managed deployment target; deployed.* properties hold current state"@,
        seq![
            property_model("description"@, false, "What this environment is"@),
        ],
    )
}

/// The type of `KIND_MAINTENANCE_CONFIG` objects.
pub open spec fn maintenance_config_model() -> TypeModel {
    type_model(
        KIND_MAINTENANCE_CONFIG@,
        "Action-controlled maintenance-window configuration for one environment"@,
        seq![
            property_model("environment"@, true, "Environment name"@),
            property_model("windows"@, true, "JSON list of recurring maintenance windows"@),
            property_model("revision"@, true, "Digest of the current windows JSON"@),
            property_model("last_update_correlation"@, false, "Correlation recorded by the most recent governed update"@),
        ],
    )
}

/// The type of `KIND_PLAN` objects.
pub open spec fn plan_model() -> TypeModel {
    type_model(
        KIND_PLAN@,
        "A computed set of steps converging one environment on its channels"@,
        seq![
            property_model("format_version"@, true, "Serialized plan contract version"@),
            property_model("environment"@, true, "Environment name"@),
            property_model("created_at"@, true, "Plan creation time in Unix milliseconds"@),
            property_model("content_digest"@, true, "Digest of immutable executable content"@),
            property_model("plan"@, true, "Versioned serialized plan document"@),
            property_model("status"@, true, "computed|running|blocked|succeeded|failed"@),
            property_model("last_emergency_override_reason"@, false, "Last governed maintenance override reason"@),
            property_model("last_emergency_override_correlation"@, false, "Correlation token for the last governed maintenance override"@),
        ],
    )
}

/// The type of `KIND_ENVIRONMENT_EXECUTION` objects.
pub open spec fn environment_execution_model() -> TypeModel {
    type_model(
        KIND_ENVIRONMENT_EXECUTION@,
        "An exclusive apply lock for one environment"@,
        seq![
            property_model("environment"@, true, "Locked environment name"@),
            property_model("owner"@, true, "Plan id holding the lease"@),
            property_model("expires_at"@, true, "Lease expiry in Unix milliseconds"@),
            property_model("generation"@, false, "Sekai lease fencing generation"@),
        ],
    )
}

/// The type of `KIND_DEPLOYMENT` objects.
pub open spec fn deployment_model() -> TypeModel {
    type_model(
        KIND_DEPLOYMENT@,
        "One executed step: a release applied to an environment"@,
        seq![
            property_model("environment"@, true, "Environment name"@),
            property_model("product"@, true, "Product name"@),
            property_model("from_version"@, false, "Previously deployed version"@),
            property_model("to_version"@, true, "Applied version"@),
            property_model("status"@, true, "succeeded|failed|rolled_back"@),
            property_model("detail"@, false, "Failure or rollback detail"@),
            property_model("lease_generation"@, false, "Mutation fencing generation"@),
        ],
    )
}

/// The type of `KIND_CANARY_DESIGNATION` objects.
pub open spec fn canary_designation_model() -> TypeModel {
    type_model(
        KIND_CANARY_DESIGNATION@,
        "An explicit fact designating an environment for canary cohorts"@,
        seq![
            property_model("environment"@, true, "Designated environment name"@),
        ],
    )
}

/// The type of `KIND_CANARY_POLICY` objects.
pub open spec fn canary_policy_model() -> TypeModel {
    type_model(
        KIND_CANARY_POLICY@,
        "The immutable canary cohort and success rule for one release promotion"@,
        seq![
            property_model("release_id"@, true, "Release governed by this policy"@),
            property_model("release_digest"@, true, "Pinned release manifest digest"@),
            property_model("artifact_digest"@, true, "Pinned release artifact digest"@),
            property_model("target_channel"@, true, "Wider channel gated by this policy"@),
            property_model("policy_digest"@, true, "Digest of the canonical policy"@),
            property_model("active"@, true, "Whether policy activation completed"@),
            property_model("policy"@, true, "Canonical JSON policy document"@),
        ],
    )
}

/// The type of `KIND_CANARY_POLICY_POINTER` objects.
pub open spec fn canary_policy_pointer_model() -> TypeModel {
    type_model(
        KIND_CANARY_POLICY_POINTER@,
        "The currently active immutable policy for one release promotion"@,
        seq![
            property_model("release_id"@, true, "Release governed by the active policy"@),
            property_model("target_channel"@, true, "Wider channel gated by the policy"@),
            property_model("policy_id"@, true, "Immutable active policy object"@),
            property_model("policy_digest"@, true, "Digest of the active policy"@),
        ],
    )
}

/// The type of `KIND_CANARY_ATTEMPT` objects.
pub open spec fn canary_attempt_model() -> TypeModel {
    type_model(
        KIND_CANARY_ATTEMPT@,
        "A durable execution-time snapshot of applicable canary policies"@,
        seq![
            property_model("plan_id"@, true, "Plan being executed"@),
            property_model("initial_plan_state"@, true, "Plan lifecycle state before this execution attempt"@),
            property_model("gates_skipped"@, true, "Whether evaluation gates were skipped"@),
            property_model("status"@, true, "pending|ready|abandoned|complete"@),
            property_model("execution_started_at"@, false, "Apply start time in Unix milliseconds"@),
            property_model("plan_state"@, false, "Terminal state captured for this attempt"@),
            property_model("finished_at"@, false, "Attempt finish time in Unix milliseconds"@),
            property_model("status_detail"@, false, "Terminal detail captured for this attempt"@),
            property_model("outcomes"@, false, "Execution outcomes returned by the apply"@),
            property_model("policies"@, true, "Policies active when execution began"@),
        ],
    )
}

/// The type of `KIND_CANARY_OUTCOME` objects.
pub open spec fn canary_outcome_model() -> TypeModel {
    type_model(
        KIND_CANARY_OUTCOME@,
        "An immutable canary deployment outcome bound to a release and policy"@,
        seq![
            property_model("release_id"@, true, "Release exercised by the canary"@),
            property_model("policy_digest"@, true, "Policy in force during execution"@),
            property_model("policy_activated_at"@, true, "Activation time of the policy in force during execution"@),
            property_model("environment"@, true, "Canary environment"@),
            property_model("plan_id"@, true, "Plan that produced the outcome"@),
            property_model("attempt_id"@, true, "Immutable execution attempt"@),
            property_model("step_order"@, true, "Plan step represented by the outcome"@),
            property_model("plan_state"@, true, "Terminal state of the producing plan"@),
            property_model("deployment_id"@, false, "Deployment proving a passing outcome"@),
            property_model("executed_at"@, true, "Execution time in Unix milliseconds"@),
            property_model("recorded_at"@, true, "Outcome time in Unix milliseconds"@),
            property_model("outcome"@, true, "Canonical JSON outcome document"@),
        ],
    )
}

/// The type of `KIND_PROMOTION_AUDIT` objects.
pub open spec fn promotion_audit_model() -> TypeModel {
    type_model(
        KIND_PROMOTION_AUDIT@,
        "An immutable allow or deny decision with its complete canary evidence"@,
        seq![
            property_model("release_id"@, true, "Release considered for promotion"@),
            property_model("target_channel"@, true, "Destination channel"@),
            property_model("policy_digest"@, true, "Policy evaluated"@),
            property_model("policy_activated_at"@, true, "Activation time of the policy evaluated"@),
            property_model("allowed"@, true, "Whether promotion was permitted"@),
            property_model("evaluated_at"@, true, "Decision time in Unix milliseconds"@),
            property_model("evaluation"@, true, "Canonical JSON decision and evidence"@),
        ],
    )
}

/// The type of `KIND_PROMOTION_LOCK` objects.
pub open spec fn promotion_lock_model() -> TypeModel {
    type_model(
        KIND_PROMOTION_LOCK@,
        "An exclusive lock serializing policy changes and channel promotion"@,
        seq![
            property_model("owner"@, true, "Operation holding the lock"@),
        ],
    )
}

/// The object types of the control plane, in registration order.
pub open spec fn schema_models() -> Seq<TypeModel> {
    seq![
        product_model(),
        release_model(),
        release_verification_model(),
        channel_model(),
        environment_model(),
        maintenance_config_model(),
        plan_model(),
        environment_execution_model(),
        deployment_model(),
        canary_designation_model(),
        canary_policy_model(),
        canary_policy_pointer_model(),
        canary_attempt_model(),
        canary_outcome_model(),
        promotion_audit_model(),
        promotion_lock_model(),
    ]
}

fn product_type() -> (schema: ObjectType)
    ensures
        schema@ == product_model(),
{
    let mut properties: Vec<PropertyDef> = Vec::new();
    properties.push(prop("description", false, "What this product is"));
    let schema = object_type(KIND_PRODUCT, "A deliverable unit of software or intelligence artifacts", properties);
    assert(schema@.properties =~= product_model().properties);
    schema
}

fn release_type() -> (schema: ObjectType)
    ensures
        schema@ == release_model(),
{
    let mut properties: Vec<PropertyDef> = Vec::new();
    properties.push(prop("product", true, "Product name"));
    properties.push(prop("version", true, "Release version"));
    properties.push(prop("digest", true, "sha256 of the manifest content"));
    properties.push(prop("artifact_digest", true, "sha256 tree digest of the immutable deployment workdir"));
    properties.push(prop("manifest", true, "Raw manifest as published"));
    properties.push(prop("workdir", false, "Absolute workdir for deploy commands"));
    properties.push(prop("verification_status", false, "verified|unsigned-development publication trust result"));
    properties.push(prop("signature_algorithm", false, "Signature algorithm or none for unsigned development"));
    properties.push(prop("signer_identity", false, "Trusted signer identity"));
    properties.push(prop("signer_key_id", false, "Trusted signer public-key digest"));
    properties.push(prop("signature_statement_digest", false, "sha256 of the canonical signed release statement"));
    properties.push(prop("signature_envelope", false, "Detached signature envelope retained for reverification"));
    properties.push(prop("provenance", false, "Canonical signed provenance JSON"));
    let schema = object_type(KIND_RELEASE, "An immutable, digest-pinned version of a product", properties);
    assert(schema@.properties =~= release_model().properties);
    schema
}

fn release_verification_type() -> (schema: ObjectType)
    ensures
        schema@ == release_verification_model(),
{
    let mut properties: Vec<PropertyDef> = Vec::new();
    properties.push(prop("release_id", true, "Verified release object id"));
    properties.push(prop("verification_status", true, "verified"));
    properties.push(prop("signature_algorithm", true, "Signature algorithm"));
    properties.push(prop("signer_identity", true, "Trusted signer identity"));
    properties.push(prop("signer_key_id", true, "Trusted signer public-key digest"));
    properties.push(prop("signature_statement_digest", true, "sha256 of the canonical signed release statement"));
    properties.push(prop("signature_envelope", true, "Detached signature envelope"));
    properties.push(prop("provenance", true, "Canonical signed provenance JSON"));
    let schema = object_type(KIND_RELEASE_VERIFICATION, "An immutable first-writer claim for legacy release verification evidence", properties);
    assert(schema@.properties =~= release_verification_model().properties);
    schema
}

fn channel_type() -> (schema: ObjectType)
    ensures
        schema@ == channel_model(),
{
    let mut properties: Vec<PropertyDef> = Vec::new();
    properties.push(prop("product", true, "Product name"));
    properties.push(prop("channel", true, "Channel name"));
    properties.push(prop("current_version", false, "Version the channel points at"));
    properties.push(prop("current_release", false, "Release object id the channel points at"));
    let schema = object_type(KIND_CHANNEL, "A named release stream of a product (dev/canary/stable)", properties);
    assert(schema@.properties =~= channel_model().properties);
    schema
}

fn environment_type() -> (schema: ObjectType)
    ensures
        schema@ == environment_model(),
{
    let mut properties: Vec<PropertyDef> = Vec::new();
    properties.push(prop("description", false, "What this environment is"));
    let schema = object_type(KIND_ENVIRONMENT, "A managed deployment target; deployed.* properties hold current state", properties);
    assert(schema@.properties =~= environment_model().properties);
    schema
}

fn maintenance_config_type() -> (schema: ObjectType)
    ensures
        schema@ == maintenance_config_model(),
{
    let mut properties: Vec<PropertyDef> = Vec::new();
    properties.push(prop("environment", true, "Environment name"));
    properties.push(prop("windows", true, "JSON list of recurring maintenance windows"));
    properties.push(prop("revision", true, "Digest of the current windows JSON"));
    properties.push(prop("last_update_correlation", false, "Correlation recorded by the most recent governed update"));
    let schema = object_type(KIND_MAINTENANCE_CONFIG, "Action-controlled maintenance-window configuration for one environment", properties);
    assert(schema@.properties =~= maintenance_config_model().properties);
    schema
}

fn plan_type() -> (schema: ObjectType)
    ensures
        schema@ == plan_model(),
{
    let mut properties: Vec<PropertyDef> = Vec::new();
    properties.push(prop("format_version", true, "Serialized plan contract version"));
    properties.push(prop("environment", true, "Environment name"));
    properties.push(prop("created_at", true, "Plan creation time in Unix milliseconds"));
    properties.push(prop("content_digest", true, "Digest of immutable executable content"));
    properties.push(prop("plan", true, "Versioned serialized plan document"));
    properties.push(prop("status", true, "computed|running|blocked|succeeded|failed"));
    properties.push(prop("last_emergency_override_reason", false, "Last governed maintenance override reason"));
    properties.push(prop("last_emergency_override_correlation", false, "Correlation token for the last governed maintenance override"));
    let schema = object_type(KIND_PLAN, "A computed set of steps converging one environment on its channels", properties);
    assert(schema@.properties =~= plan_model().properties);
    schema
}

fn environment_execution_type() -> (schema: ObjectType)
    ensures
        schema@ == environment_execution_model(),
{
    let mut properties: Vec<PropertyDef> = Vec::new();
    properties.push(prop("environment", true, "Locked environment name"));
    properties.push(prop("owner", true, "Plan id holding the lease"));
    properties.push(prop("expires_at", true, "Lease expiry in Unix milliseconds"));
    properties.push(prop("generation", false, "Sekai lease fencing generation"));
    let schema = object_type(KIND_ENVIRONMENT_EXECUTION, "An exclusive apply lock for one environment", properties);
    assert(schema@.properties =~= environment_execution_model().properties);
    schema
}

fn deployment_type() -> (schema: ObjectType)
    ensures
        schema@ == deployment_model(),
{
    let mut properties: Vec<PropertyDef> = Vec::new();
    properties.push(prop("environment", true, "Environment name"));
    properties.push(prop("product", true, "Product name"));
    properties.push(prop("from_version", false, "Previously deployed version"));
    properties.push(prop("to_version", true, "Applied version"));
    properties.push(prop("status", true, "succeeded|failed|rolled_back"));
    properties.push(prop("detail", false, "Failure or rollback detail"));
    properties.push(prop("lease_generation", false, "Mutation fencing generation"));
    let schema = object_type(KIND_DEPLOYMENT, "One executed step: a release applied to an environment", properties);
    assert(schema@.properties =~= deployment_model().properties);
    schema
}

fn canary_designation_type() -> (schema: ObjectType)
    ensures
        schema@ == canary_designation_model(),
{
    let mut properties: Vec<PropertyDef> = Vec::new();
    properties.push(prop("environment", true, "Designated environment name"));
    let schema = object_type(KIND_CANARY_DESIGNATION, "An explicit fact designating an environment for canary cohorts", properties);
    assert(schema@.properties =~= canary_designation_model().properties);
    schema
}

fn canary_policy_type() -> (schema: ObjectType)
    ensures
        schema@ == canary_policy_model(),
{
    let mut properties: Vec<PropertyDef> = Vec::new();
    properties.push(prop("release_id", true, "Release governed by this policy"));
    properties.push(prop("release_digest", true, "Pinned release manifest digest"));
    properties.push(prop("artifact_digest", true, "Pinned release artifact digest"));
    properties.push(prop("target_channel", true, "Wider channel gated by this policy"));
    properties.push(prop("policy_digest", true, "Digest of the canonical policy"));
    properties.push(prop("active", true, "Whether policy activation completed"));
    properties.push(prop("policy", true, "Canonical JSON policy document"));
    let schema = object_type(KIND_CANARY_POLICY, "The immutable canary cohort and success rule for one release promotion", properties);
    assert(schema@.properties =~= canary_policy_model().properties);
    schema
}

fn canary_policy_pointer_type() -> (schema: ObjectType)
    ensures
        schema@ == canary_policy_pointer_model(),
{
    let mut properties: Vec<PropertyDef> = Vec::new();
    properties.push(prop("release_id", true, "Release governed by the active policy"));
    properties.push(prop("target_channel", true, "Wider channel gated by the policy"));
    properties.push(prop("policy_id", true, "Immutable active policy object"));
    properties.push(prop("policy_digest", true, "Digest of the active policy"));
    let schema = object_type(KIND_CANARY_POLICY_POINTER, "The currently active immutable policy for one release promotion", properties);
    assert(schema@.properties =~= canary_policy_pointer_model().properties);
    schema
}

fn canary_attempt_type() -> (schema: ObjectType)
    ensures
        schema@ == canary_attempt_model(),
{
    let mut properties: Vec<PropertyDef> = Vec::new();
    properties.push(prop("plan_id", true, "Plan being executed"));
    properties.push(prop("initial_plan_state", true, "Plan lifecycle state before this execution attempt"));
    properties.push(prop("gates_skipped", true, "Whether evaluation gates were skipped"));
    properties.push(prop("status", true, "pending|ready|abandoned|complete"));
    properties.push(prop("execution_started_at", false, "Apply start time in Unix milliseconds"));
    properties.push(prop("plan_state", false, "Terminal state captured for this attempt"));
    properties.push(prop("finished_at", false, "Attempt finish time in Unix milliseconds"));
    properties.push(prop("status_detail", false, "Terminal detail captured for this attempt"));
    properties.push(prop("outcomes", false, "Execution outcomes returned by the apply"));
    properties.push(prop("policies", true, "Policies active when execution began"));
    let schema = object_type(KIND_CANARY_ATTEMPT, "A durable execution-time snapshot of applicable canary policies", properties);
    assert(schema@.properties =~= canary_attempt_model().properties);
    schema
}

fn canary_outcome_type() -> (schema: ObjectType)
    ensures
        schema@ == canary_outcome_model(),
{
    let mut properties: Vec<PropertyDef> = Vec::new();
    properties.push(prop("release_id", true, "Release exercised by the canary"));
    properties.push(prop("policy_digest", true, "Policy in force during execution"));
    properties.push(prop("policy_activated_at", true, "Activation time of the policy in force during execution"));
    properties.push(prop("environment", true, "Canary environment"));
    properties.push(prop("plan_id", true, "Plan that produced the outcome"));
    properties.push(prop("attempt_id", true, "Immutable execution attempt"));
    properties.push(prop("step_order", true, "Plan step represented by the outcome"));
    properties.push(prop("plan_state", true, "Terminal state of the producing plan"));
    properties.push(prop("deployment_id", false, "Deployment proving a passing outcome"));
    properties.push(prop("executed_at", true, "Execution time in Unix milliseconds"));
    properties.push(prop("recorded_at", true, "Outcome time in Unix milliseconds"));
    properties.push(prop("outcome", true, "Canonical JSON outcome document"));
    let schema = object_type(KIND_CANARY_OUTCOME, "An immutable canary deployment outcome bound to a release and policy", properties);
    assert(schema@.properties =~= canary_outcome_model().properties);
    schema
}

fn promotion_audit_type() -> (schema: ObjectType)
    ensures
        schema@ == promotion_audit_model(),
{
    let mut properties: Vec<PropertyDef> = Vec::new();
    properties.push(prop("release_id", true, "Release considered for promotion"));
    properties.push(prop("target_channel", true, "Destination channel"));
    properties.push(prop("policy_digest", true, "Policy evaluated"));
    properties.push(prop("policy_activated_at", true, "Activation time of the policy evaluated"));
    properties.push(prop("allowed", true, "Whether promotion was permitted"));
    properties.push(prop("evaluated_at", true, "Decision time in Unix milliseconds"));
    properties.push(prop("evaluation", true, "Canonical JSON decision and evidence"));
    let schema = object_type(KIND_PROMOTION_AUDIT, "An immutable allow or deny decision with its complete canary evidence", properties);
    assert(schema@.properties =~= promotion_audit_model().properties);
    schema
}

fn promotion_lock_type() -> (schema: ObjectType)
    ensures
        schema@ == promotion_lock_model(),
{
    let mut properties: Vec<PropertyDef> = Vec::new();
    properties.push(prop("owner", true, "Operation holding the lock"));
    let schema = object_type(KIND_PROMOTION_LOCK, "An exclusive lock serializing policy changes and channel promotion", properties);
    assert(schema@.properties =~= promotion_lock_model().properties);
    schema
}

/// The object types of the control plane, in registration order.
pub fn schema_types() -> (types: Vec<ObjectType>)
    ensures
        type_models(types@) == schema_models(),
{
    let mut types: Vec<ObjectType> = Vec::new();
    types.push(product_type());
    types.push(release_type());
    types.push(release_verification_type());
    types.push(channel_type());
    types.push(environment_type());
    types.push(maintenance_config_type());
    types.push(plan_type());
    types.push(environment_execution_type());
    types.push(deployment_type());
    types.push(canary_designation_type());
    types.push(canary_policy_type());
    types.push(canary_policy_pointer_type());
    types.push(canary_attempt_type());
    types.push(canary_outcome_type());
    types.push(promotion_audit_type());
    types.push(promotion_lock_type());
    assert(type_models(types@) =~= schema_models());
    types
}

/// An identifier is ASCII letters and digits with `.`, `_`, `-` and `+` among
/// them, but not first.
pub proof fn identifiers_are_plain(label: &str, value: &str, result: Result<(), Error>)
    requires
        call_ensures(validate_identifier, (label, value), result),
    ensures
        result is Ok <==> {
            &&& value@.len() > 0
            &&& value@[0] != '.' && value@[0] != '_' && value@[0] != '-' && value@[0] != '+'
            &&& forall|i: int|
                0 <= i < value@.len() ==> ('a' <= #[trigger] value@[i] <= 'z' || 'A' <= value@[i]
                    <= 'Z' || '0' <= value@[i] <= '9' || value@[i] == '.' || value@[i] == '_'
                    || value@[i] == '-' || value@[i] == '+')
        },
{
}

/// Objects of one name have ids of their kind, and the names tell the ids
/// apart.
pub proof fn ids_spell_kind_and_name(
    name: &str,
    other: &str,
    product: String,
    other_product: String,
    env: String,
    other_env: String,
)
    requires
        call_ensures(product_id, (name,), product),
        call_ensures(product_id, (other,), other_product),
        call_ensures(env_id, (name,), env),
        call_ensures(env_id, (other,), other_env),
    ensures
        product@ == "tenkai:product:"@ + name@,
        env@ == "tenkai:env:"@ + name@,
        product@ == other_product@ ==> name@ == other@,
        env@ == other_env@ ==> name@ == other@,
        product@ != other_env@,
{
    reveal_strlit("tenkai:product:");
    reveal_strlit("tenkai:env:");
    let p = "tenkai:product:"@;
    let e = "tenkai:env:"@;
    assert((p + name@).skip(p.len() as int) =~= name@);
    assert((p + other@).skip(p.len() as int) =~= other@);
    assert((e + name@).skip(e.len() as int) =~= name@);
    assert((e + other@).skip(e.len() as int) =~= other@);
    assert((p + name@)[7] == 'p' && (e + other@)[7] == 'e');
}

/// Plans of two environments have two ids, and so have plans of two instants
/// or two contents.
pub proof fn plan_ids_tell_apart(
    env: &str,
    other_env: &str,
    ts: i64,
    other_ts: i64,
    content: &str,
    other_content: &str,
    id: String,
    other_id: String,
)
    requires
        identifier(env@),
        identifier(other_env@),
        call_ensures(plan_id, (env, ts, content), id),
        call_ensures(plan_id, (other_env, other_ts, other_content), other_id),
        id@ == other_id@,
    ensures
        env@ == other_env@,
        ts == other_ts,
        content@ == other_content@,
{
    reveal_strlit(":");
    let colon = ":"@;
    assert(colon =~= seq![':']);
    lemma_no_colon(env@);
    lemma_no_colon(other_env@);
    let head = "tenkai:plan:"@;
    let a = decimal_int(ts as int);
    let b = decimal_int(other_ts as int);
    let x = a + colon + content@;
    let y = b + colon + other_content@;
    assert(id@ =~= head + env@ + colon + x);
    assert(other_id@ =~= head + other_env@ + colon + y);
    lemma_delimited(head, env@, other_env@, x, y, ':', colon);
    lemma_number_without_colon(ts as int);
    lemma_number_without_colon(other_ts as int);
    let none = Seq::<char>::empty();
    assert(none + a + colon + content@ =~= x);
    assert(none + b + colon + other_content@ =~= y);
    lemma_delimited(none, a, b, content@, other_content@, ':', colon);
    crate::text::lemma_decimal_int_reads_back(ts as int);
    crate::text::lemma_decimal_int_reads_back(other_ts as int);
}

proof fn lemma_no_colon(name: Seq<char>)
    requires
        identifier(name),
    ensures
        !name.contains(':'),
{
    if name.contains(':') {
        let i = choose|i: int| 0 <= i < name.len() && name[i] == ':';
        assert(identifier_char(name[i]));
    }
}

proof fn lemma_digits_alone(value: nat)
    ensures
        !crate::text::decimal(value).contains(':'),
    decreases value,
{
    let all = crate::text::decimal(value);
    if value >= 10 {
        lemma_digits_alone(value / 10);
        let front = crate::text::decimal(value / 10);
        if all.contains(':') {
            let i = choose|i: int| 0 <= i < all.len() && all[i] == ':';
            if i < front.len() {
                assert(front[i] == ':');
                assert(front.contains(':'));
            }
        }
    } else if all.contains(':') {
        let i = choose|i: int| 0 <= i < all.len() && all[i] == ':';
        assert(i == 0);
    }
}

proof fn lemma_number_without_colon(value: int)
    ensures
        !decimal_int(value).contains(':'),
{
    let all = decimal_int(value);
    if value < 0 {
        let digits = crate::text::decimal((-value) as nat);
        lemma_digits_alone((-value) as nat);
        if all.contains(':') {
            let i = choose|i: int| 0 <= i < all.len() && all[i] == ':';
            assert(i > 0);
            assert(digits[i - 1] == ':');
            assert(digits.contains(':'));
        }
    } else {
        lemma_digits_alone(value as nat);
    }
}

/// A type includes another where each property of the other has one of its
/// name, of its type and as required as it, whatever else they say.
pub proof fn included_properties_agree(
    actual: &ObjectType,
    expected: &ObjectType,
    at: int,
    answer: bool,
)
    requires
        call_ensures(schema_includes, (actual, expected), answer),
        0 <= at < expected.properties@.len(),
    ensures
        answer ==> exists|j: int|
            0 <= j < actual.properties@.len() && (#[trigger] actual.properties@[j]).name@
                == expected.properties@[at].name@ && actual.properties@[j].kind@
                == expected.properties@[at].kind@ && actual.properties@[j].required
                == expected.properties@[at].required,
{
    let have = property_models(actual.properties@);
    let want = property_models(expected.properties@);
    assert(have == actual@.properties && want == expected@.properties);
    if answer {
        assert(want[at] == expected.properties@[at]@);
        assert(has_compatible(have, want[at]));
        let j = choose|j: int| 0 <= j < have.len() && compatible(#[trigger] have[j], want[at]);
        assert(have[j] == actual.properties@[j]@);
        assert(actual.properties@[j].name@ == expected.properties@[at].name@);
    }
}

/// A type that does not include another lacks a property of it: none of its
/// own has that name, that type and that requiredness.
pub proof fn excluded_property_is_lacking(
    actual: &ObjectType,
    expected: &ObjectType,
    answer: bool,
)
    requires
        call_ensures(schema_includes, (actual, expected), answer),
        !answer,
    ensures
        exists|i: int|
            0 <= i < expected.properties@.len() && forall|j: int|
                0 <= j < actual.properties@.len() ==> !((#[trigger] actual.properties@[j]).name@
                    == (#[trigger] expected.properties@[i]).name@ && actual.properties@[j].kind@
                    == expected.properties@[i].kind@ && actual.properties@[j].required
                    == expected.properties@[i].required),
{
    let have = property_models(actual.properties@);
    let want = property_models(expected.properties@);
    assert(have == actual@.properties && want == expected@.properties);
    let i = choose|i: int| 0 <= i < want.len() && !has_compatible(have, #[trigger] want[i]);
    assert(want[i] == expected.properties@[i]@);
    assert forall|j: int| 0 <= j < actual.properties@.len() implies !((
    #[trigger] actual.properties@[j]).name@ == expected.properties@[i].name@
        && actual.properties@[j].kind@ == expected.properties@[i].kind@
        && actual.properties@[j].required == expected.properties@[i].required) by {
        assert(have[j] == actual.properties@[j]@);
        if compatible(have[j], want[i]) {
            assert(has_compatible(have, want[i]));
        }
    }
    assert(expected.properties@[i].name@ == want[i].name);
}

/// What a type evolves into has every expected property, keeps all that the
/// type said, and can be evolved again to the same effect.
pub proof fn evolution_serves_both_sides(
    actual: &ObjectType,
    expected: &ObjectType,
    schema: &ObjectType,
    result: Result<ObjectType, Error>,
    included: bool,
    preserved: bool,
)
    requires
        call_ensures(evolve_schema, (actual, expected), result),
        result == Ok::<ObjectType, Error>(*schema),
        call_ensures(schema_includes, (schema, expected), included),
        call_ensures(schema_preserves, (schema, actual), preserved),
    ensures
        included,
        preserved,
        schema.properties@.len() >= actual.properties@.len(),
        property_models(schema.properties@).take(actual.properties@.len() as int)
            == property_models(actual.properties@),
{
    evolution_includes_and_preserves(actual@, expected@);
    let have = property_models(actual.properties@);
    let all = property_models(schema.properties@);
    assert(all == have + missing_properties(actual@, expected@.properties));
    assert(all.take(have.len() as int) =~= have);
}

proof fn lemma_missing(actual: TypeModel, expected: Seq<PropertyModel>, i: int)
    requires
        0 <= i < missing_properties(actual, expected).len(),
    ensures
        exists|k: int|
            0 <= k < expected.len() && (#[trigger] expected[k]) == missing_properties(
                actual,
                expected,
            )[i] && named_at(actual.properties, expected[k].name) == actual.properties.len(),
    decreases expected.len(),
{
    let front = expected.drop_last();
    let before = missing_properties(actual, front);
    let all = missing_properties(actual, expected);
    if i < before.len() {
        lemma_missing(actual, front, i);
        let k = choose|k: int|
            0 <= k < front.len() && (#[trigger] front[k]) == before[i] && named_at(
                actual.properties,
                front[k].name,
            ) == actual.properties.len();
        assert(expected[k] == front[k]);
        assert(all[i] == before[i]);
    } else {
        assert(expected[expected.len() - 1] == all[i]);
    }
}

proof fn lemma_named(list: Seq<PropertyModel>, name: Seq<char>)
    ensures
        ({
            let at = named_at(list, name);
            &&& 0 <= at <= list.len()
            &&& at < list.len() ==> list[at].name == name
            &&& forall|k: int| 0 <= k < at ==> (#[trigger] list[k]).name != name
        }),
    decreases list.len(),
{
    if list.len() > 0 && list[0].name != name {
        let rest = list.drop_first();
        lemma_named(rest, name);
        let at = named_at(list, name);
        assert forall|k: int| 0 <= k < at implies (#[trigger] list[k]).name != name by {
            if k > 0 {
                assert(rest[k - 1] == list[k]);
            }
        }
        if at < list.len() {
            assert(rest[at - 1] == list[at]);
        }
    }
}

/// An evolution adds nothing but expected properties whose names the type had
/// none of.
pub proof fn evolution_adds_what_is_missing(
    actual: &ObjectType,
    expected: &ObjectType,
    schema: &ObjectType,
    result: Result<ObjectType, Error>,
    at: int,
)
    requires
        call_ensures(evolve_schema, (actual, expected), result),
        result == Ok::<ObjectType, Error>(*schema),
        actual.properties@.len() <= at < schema.properties@.len(),
    ensures
        exists|k: int|
            0 <= k < expected.properties@.len() && (#[trigger] expected.properties@[k])@
                == schema.properties@[at]@,
        forall|j: int|
            0 <= j < actual.properties@.len() ==> (#[trigger] actual.properties@[j]).name@
                != schema.properties@[at].name@,
{
    let have = property_models(actual.properties@);
    let want = property_models(expected.properties@);
    let all = property_models(schema.properties@);
    let missing = missing_properties(actual@, want);
    assert(all == have + missing);
    let i = at - have.len();
    assert(all[at] == missing[i]);
    assert(all[at] == schema.properties@[at]@);
    lemma_missing(actual@, want, i);
    let k = choose|k: int|
        0 <= k < want.len() && (#[trigger] want[k]) == missing[i] && named_at(
            actual@.properties,
            want[k].name,
        ) == actual@.properties.len();
    assert(want[k] == expected.properties@[k]@);
    lemma_named(have, want[k].name);
    assert forall|j: int| 0 <= j < actual.properties@.len() implies (
    #[trigger] actual.properties@[j]).name@ != schema.properties@[at].name@ by {
        assert(have[j] == actual.properties@[j]@);
    }
}

proof fn lemma_conflict(actual: TypeModel, expected: Seq<PropertyModel>)
    ensures
        evolution_refusal(actual, expected) is None <==> forall|i: int|
            0 <= i < expected.len() ==> !conflicts(actual, #[trigger] expected[i]),
    decreases expected.len(),
{
    if expected.len() > 0 {
        let front = expected.drop_last();
        lemma_conflict(actual, front);
        if evolution_refusal(actual, expected) is None {
            assert forall|i: int| 0 <= i < expected.len() implies !conflicts(
                actual,
                #[trigger] expected[i],
            ) by {
                if i < front.len() {
                    assert(front[i] == expected[i]);
                }
            }
        } else if forall|i: int|
            0 <= i < expected.len() ==> !conflicts(actual, #[trigger] expected[i]) {
            assert forall|i: int| 0 <= i < front.len() implies !conflicts(
                actual,
                #[trigger] front[i],
            ) by {
                assert(front[i] == expected[i]);
            }
            assert(!conflicts(actual, expected[expected.len() - 1]));
        }
    }
}

/// A type cannot evolve where the first of its properties with an expected
/// name is of another type or is required otherwise, and can where there is no
/// such property.
pub proof fn evolution_stops_at_conflicts(
    actual: &ObjectType,
    expected: &ObjectType,
    result: Result<ObjectType, Error>,
)
    requires
        call_ensures(evolve_schema, (actual, expected), result),
    ensures
        forall|i: int, j: int|
            0 <= i < expected.properties@.len() && 0 <= j < actual.properties@.len() && (
            #[trigger] actual.properties@[j]).name@ == (
            #[trigger] expected.properties@[i]).name@ && (forall|k: int|
                0 <= k < j ==> (#[trigger] actual.properties@[k]).name@
                    != expected.properties@[i].name@) && (actual.properties@[j].kind@
                != expected.properties@[i].kind@ || actual.properties@[j].required
                != expected.properties@[i].required) ==> result is Err,
        result is Err ==> exists|i: int, j: int|
            0 <= i < expected.properties@.len() && 0 <= j < actual.properties@.len() && (
            #[trigger] actual.properties@[j]).name@ == (
            #[trigger] expected.properties@[i]).name@ && (actual.properties@[j].kind@
                != expected.properties@[i].kind@ || actual.properties@[j].required
                != expected.properties@[i].required),
{
    let have = property_models(actual.properties@);
    let want = property_models(expected.properties@);
    lemma_conflict(actual@, want);
    assert(have == actual@.properties && want == expected@.properties);
    assert forall|i: int, j: int|
        0 <= i < expected.properties@.len() && 0 <= j < actual.properties@.len() && (
        #[trigger] actual.properties@[j]).name@ == (#[trigger] expected.properties@[i]).name@ && (
        forall|k: int|
            0 <= k < j ==> (#[trigger] actual.properties@[k]).name@
                != expected.properties@[i].name@) && (actual.properties@[j].kind@
            != expected.properties@[i].kind@ || actual.properties@[j].required
            != expected.properties@[i].required) implies result is Err by {
        assert(want[i] == expected.properties@[i]@);
        assert(have[j] == actual.properties@[j]@);
        assert forall|k: int| 0 <= k < j implies (#[trigger] have[k]).name != want[i].name by {
            assert(have[k] == actual.properties@[k]@);
        }
        lemma_named_at(have, want[i].name, j);
        assert(conflicts(actual@, want[i]));
    }
    if result is Err {
        let i = choose|i: int| 0 <= i < want.len() && conflicts(actual@, #[trigger] want[i]);
        let j = named_at(have, want[i].name);
        lemma_named(have, want[i].name);
        assert(want[i] == expected.properties@[i]@);
        assert(have[j] == actual.properties@[j]@);
        assert(actual.properties@[j].name@ == expected.properties@[i].name@);
    }
}

proof fn lemma_no_stored_type(types: Seq<TypeModel>, kind: Seq<char>)
    ensures
        stored_type(types, kind) is None <==> forall|i: int|
            0 <= i < types.len() ==> (#[trigger] types[i]).kind != kind,
    decreases types.len(),
{
    if types.len() > 0 && types[0].kind != kind {
        let rest = types.drop_first();
        lemma_no_stored_type(rest, kind);
        if stored_type(types, kind) is None {
            assert forall|i: int| 0 <= i < types.len() implies (#[trigger] types[i]).kind
                != kind by {
                if i > 0 {
                    assert(rest[i - 1] == types[i]);
                }
            }
        } else if forall|i: int| 0 <= i < types.len() ==> (#[trigger] types[i]).kind != kind {
            assert forall|i: int| 0 <= i < rest.len() implies (#[trigger] rest[i]).kind
                != kind by {
                assert(rest[i] == types[i + 1]);
            }
        }
    }
}

/// A kind that is not stored is created as expected. One that is stored is
/// kept where it includes what is expected, and otherwise evolves as far as it
/// can.
pub proof fn registration_follows_the_store(
    current: &Vec<ObjectType>,
    expected: &ObjectType,
    at: int,
    included: bool,
    schema: Result<ObjectType, Error>,
    result: Result<Registration, Error>,
)
    requires
        call_ensures(plan_registration, (current, expected), result),
        0 <= at <= current@.len(),
        forall|i: int| 0 <= i < at ==> (#[trigger] current@[i]).kind@ != expected.kind@,
        at < current@.len() ==> current@[at].kind@ == expected.kind@,
        at < current@.len() ==> call_ensures(schema_includes, (&current@[at], expected), included),
        at < current@.len() ==> call_ensures(evolve_schema, (&current@[at], expected), schema),
    ensures
        at == current@.len() ==> result is Ok && result->Ok_0 is Create && result->Ok_0->Create_0@
            == expected@,
        at < current@.len() && included ==> result is Ok && result->Ok_0 is Keep,
        at < current@.len() && !included ==> {
            &&& result is Ok <==> schema is Ok
            &&& result is Err ==> result->Err_0@ == schema->Err_0@
            &&& result is Ok ==> result->Ok_0 is Create && result->Ok_0->Create_0@
                == schema->Ok_0@
        },
{
    let types = type_models(current@);
    assert forall|k: int| 0 <= k < at implies (#[trigger] types[k]).kind != expected@.kind by {
        assert(types[k] == current@[k]@);
    }
    if at < current@.len() {
        assert(types[at] == current@[at]@);
    }
    lemma_stored_type(types, expected@.kind, at);
}

/// A registration is confirmed where the first stored type of the kind includes
/// what is expected and preserves what was registered, and says who created
/// it.
pub proof fn registrations_are_confirmed_from_the_store(
    refreshed: &Vec<ObjectType>,
    expected: &ObjectType,
    schema: &ObjectType,
    created: bool,
    at: int,
    included: bool,
    preserved: bool,
    result: Result<bool, Error>,
)
    requires
        call_ensures(confirm_registration, (refreshed, expected, schema, created), result),
        0 <= at <= refreshed@.len(),
        forall|i: int| 0 <= i < at ==> (#[trigger] refreshed@[i]).kind@ != expected.kind@,
        at < refreshed@.len() ==> refreshed@[at].kind@ == expected.kind@,
        at < refreshed@.len() ==> call_ensures(
            schema_includes,
            (&refreshed@[at], expected),
            included,
        ),
        at < refreshed@.len() ==> call_ensures(
            schema_preserves,
            (&refreshed@[at], schema),
            preserved,
        ),
    ensures
        result is Ok <==> at < refreshed@.len() && included && preserved,
        result is Ok ==> result->Ok_0 == created,
{
    let types = type_models(refreshed@);
    assert forall|k: int| 0 <= k < at implies (#[trigger] types[k]).kind != expected@.kind by {
        assert(types[k] == refreshed@[k]@);
    }
    if at < refreshed@.len() {
        assert(types[at] == refreshed@[at]@);
    }
    lemma_stored_type(types, expected@.kind, at);
}

/// A type preserves another where it says the same of itself and has each of
/// its properties word for word.
pub proof fn preserved_types_say_the_same(
    actual: &ObjectType,
    expected: &ObjectType,
    at: int,
    answer: bool,
)
    requires
        call_ensures(schema_preserves, (actual, expected), answer),
        0 <= at < expected.properties@.len(),
    ensures
        answer ==> {
            &&& actual.kind@ == expected.kind@
            &&& actual.description@ == expected.description@
            &&& actual.is_builtin == expected.is_builtin
            &&& texts(actual.implements@) == texts(expected.implements@)
            &&& exists|j: int|
                0 <= j < actual.properties@.len() && (#[trigger] actual.properties@[j])@
                    == expected.properties@[at]@
        },
{
    let have = property_models(actual.properties@);
    let want = property_models(expected.properties@);
    assert(have == actual@.properties && want == expected@.properties);
    if answer {
        assert(want[at] == expected.properties@[at]@);
        assert(have.contains(want[at]));
        let j = choose|j: int| 0 <= j < have.len() && have[j] == want[at];
        assert(have[j] == actual.properties@[j]@);
    }
}

/// What says the same as a type and has its properties first preserves it.
pub proof fn longer_types_preserve(actual: &ObjectType, expected: &ObjectType, answer: bool)
    requires
        call_ensures(schema_preserves, (actual, expected), answer),
        actual.kind@ == expected.kind@,
        actual.description@ == expected.description@,
        actual.is_builtin == expected.is_builtin,
        texts(actual.implements@) == texts(expected.implements@),
        expected.properties@.len() <= actual.properties@.len(),
        forall|i: int|
            0 <= i < expected.properties@.len() ==> (#[trigger] expected.properties@[i])@
                == actual.properties@[i]@,
    ensures
        answer,
{
    let have = property_models(actual.properties@);
    let want = property_models(expected.properties@);
    assert(have == actual@.properties && want == expected@.properties);
    assert forall|i: int| 0 <= i < want.len() implies have.contains(#[trigger] want[i]) by {
        assert(want[i] == expected.properties@[i]@);
        assert(have[i] == actual.properties@[i]@);
    }
}

proof fn lemma_missing_kinds(required: Seq<Seq<char>>, types: Seq<TypeModel>)
    ensures
        missing_kinds(required, types).len() == 0 <==> forall|i: int|
            0 <= i < required.len() ==> stored_type(types, #[trigger] required[i]) is Some,
    decreases required.len(),
{
    if required.len() > 0 {
        let front = required.drop_last();
        lemma_missing_kinds(front, types);
        if missing_kinds(required, types).len() == 0 {
            assert forall|i: int| 0 <= i < required.len() implies stored_type(
                types,
                #[trigger] required[i],
            ) is Some by {
                if i < front.len() {
                    assert(front[i] == required[i]);
                }
            }
        } else if forall|i: int|
            0 <= i < required.len() ==> stored_type(types, #[trigger] required[i]) is Some {
            assert forall|i: int| 0 <= i < front.len() implies stored_type(
                types,
                #[trigger] front[i],
            ) is Some by {
                assert(front[i] == required[i]);
            }
            assert(stored_type(types, required[required.len() - 1]) is Some);
        }
    }
}

/// A stored list has a type of a kind.
pub open spec fn kind_stored(schemas: Seq<ObjectType>, kind: Seq<char>) -> bool {
    exists|i: int| 0 <= i < schemas.len() && (#[trigger] schemas[i]).kind@ == kind
}

proof fn lemma_kind_stored(schemas: Seq<ObjectType>, kind: Seq<char>)
    ensures
        kind_stored(schemas, kind) <==> stored_type(type_models(schemas), kind) is Some,
{
    let types = type_models(schemas);
    lemma_no_stored_type(types, kind);
    if kind_stored(schemas, kind) {
        let i = choose|i: int| 0 <= i < schemas.len() && (#[trigger] schemas[i]).kind@ == kind;
        assert(types[i] == schemas[i]@);
    }
    if stored_type(types, kind) is Some {
        let i = choose|i: int| 0 <= i < types.len() && (#[trigger] types[i]).kind == kind;
        assert(types[i] == schemas[i]@);
        assert(schemas[i].kind@ == kind);
    }
}

/// The canary rules run where every kind that they need is stored.
pub proof fn canary_rules_need_their_kinds(schemas: &Vec<ObjectType>, result: Result<(), Error>)
    requires
        call_ensures(require_canary_schema, (schemas,), result),
    ensures
        result is Ok <==> kind_stored(schemas@, "tenkai.canary_designation"@) && kind_stored(
            schemas@,
            "tenkai.canary_policy"@,
        ) && kind_stored(schemas@, "tenkai.canary_policy_pointer"@) && kind_stored(
            schemas@,
            "tenkai.canary_attempt"@,
        ) && kind_stored(schemas@, "tenkai.canary_outcome"@) && kind_stored(
            schemas@,
            "tenkai.promotion_audit"@,
        ) && kind_stored(schemas@, "tenkai.promotion_lock"@),
{
    let types = type_models(schemas@);
    let need = canary_kinds();
    lemma_missing_kinds(need, types);
    lemma_kind_stored(schemas@, need[0]);
    lemma_kind_stored(schemas@, need[1]);
    lemma_kind_stored(schemas@, need[2]);
    lemma_kind_stored(schemas@, need[3]);
    lemma_kind_stored(schemas@, need[4]);
    lemma_kind_stored(schemas@, need[5]);
    lemma_kind_stored(schemas@, need[6]);
    if forall|i: int| 0 <= i < 7 ==> stored_type(types, #[trigger] need[i]) is Some {
        assert(stored_type(types, need[0]) is Some && stored_type(types, need[1]) is Some);
        assert(stored_type(types, need[2]) is Some && stored_type(types, need[3]) is Some);
        assert(stored_type(types, need[4]) is Some && stored_type(types, need[5]) is Some);
        assert(stored_type(types, need[6]) is Some);
    }
}

/// The types of the control plane hold every kind that the canary rules need.
pub proof fn schema_serves_the_canary_rules(types: Vec<ObjectType>, result: Result<(), Error>)
    requires
        call_ensures(schema_types, (), types),
        call_ensures(require_canary_schema, (&types,), result),
    ensures
        result is Ok,
{
    let models = type_models(types@);
    assert(models.len() == 16);
    assert(models[9].kind == KIND_CANARY_DESIGNATION@ && models[9] == types@[9]@);
    assert(models[10].kind == KIND_CANARY_POLICY@ && models[10] == types@[10]@);
    assert(models[11].kind == KIND_CANARY_POLICY_POINTER@ && models[11] == types@[11]@);
    assert(models[12].kind == KIND_CANARY_ATTEMPT@ && models[12] == types@[12]@);
    assert(models[13].kind == KIND_CANARY_OUTCOME@ && models[13] == types@[13]@);
    assert(models[14].kind == KIND_PROMOTION_AUDIT@ && models[14] == types@[14]@);
    assert(models[15].kind == KIND_PROMOTION_LOCK@ && models[15] == types@[15]@);
    assert(types@[9].kind@ == "tenkai.canary_designation"@);
    assert(types@[10].kind@ == "tenkai.canary_policy"@);
    assert(types@[11].kind@ == "tenkai.canary_policy_pointer"@);
    assert(types@[12].kind@ == "tenkai.canary_attempt"@);
    assert(types@[13].kind@ == "tenkai.canary_outcome"@);
    assert(types@[14].kind@ == "tenkai.promotion_audit"@);
    assert(types@[15].kind@ == "tenkai.promotion_lock"@);
    canary_rules_need_their_kinds(&types, result);
}

/// Every property of a list is a public text.
pub open spec fn public_texts(list: Seq<PropertyModel>) -> bool {
    forall|i: int|
        0 <= i < list.len() ==> (#[trigger] list[i]).kind == "string"@ && list[i].classification
            == "public"@
}

/// No type of the control plane is built in or implements an interface, and
/// every property is a public text.
pub proof fn schema_holds_public_texts(types: Vec<ObjectType>, at: int, of: int)
    requires
        call_ensures(schema_types, (), types),
        0 <= at < types@.len(),
        0 <= of < types@[at].properties@.len(),
    ensures
        !types@[at].is_builtin,
        types@[at].implements@.len() == 0,
        types@[at].properties@[of].kind@ == "string"@,
        types@[at].properties@[of].classification@ == "public"@,
{
    let models = type_models(types@);
    assert(models.len() == 16);
    assert(models[at] == types@[at]@);
    assert(public_texts(product_model().properties));
    assert(public_texts(release_model().properties));
    assert(public_texts(release_verification_model().properties));
    assert(public_texts(channel_model().properties));
    assert(public_texts(environment_model().properties));
    assert(public_texts(maintenance_config_model().properties));
    assert(public_texts(plan_model().properties));
    assert(public_texts(environment_execution_model().properties));
    assert(public_texts(deployment_model().properties));
    assert(public_texts(canary_designation_model().properties));
    assert(public_texts(canary_policy_model().properties));
    assert(public_texts(canary_policy_pointer_model().properties));
    assert(public_texts(canary_attempt_model().properties));
    assert(public_texts(canary_outcome_model().properties));
    assert(public_texts(promotion_audit_model().properties));
    assert(public_texts(promotion_lock_model().properties));
    assert(public_texts(models[at].properties));
    let list = types@[at]@.properties;
    assert(list[of] == types@[at].properties@[of]@);
    assert(texts(types@[at].implements@).len() == types@[at].implements@.len());
}

/// A governed action requires every parameter as a text, acts on one kind of
/// object, and takes what it sets from its own parameters.
pub proof fn actions_set_their_parameters(created: i64, actions: Vec<ActionTypeDef>)
    requires
        call_ensures(action_types, (created,), actions),
    ensures
        actions@.len() == 4,
        actions@[0].name@ == "tenkai.subscribe"@,
        actions@[0].target_kind@ == "tenkai.environment"@,
        actions@[1].name@ == "tenkai.configure_maintenance_windows"@,
        actions@[1].target_kind@ == "tenkai.maintenance_config"@,
        actions@[2].name@ == "tenkai.emergency_maintenance_override"@,
        actions@[2].target_kind@ == "tenkai.plan"@,
        actions@[3].name@ == "tenkai.replace_subscription"@,
        actions@[3].target_kind@ == "tenkai.environment"@,
        forall|i: int| 0 <= i < 4 ==> (#[trigger] actions@[i]).created == created,
{
    let list = actions@.map_values(|item: ActionTypeDef| item@);
    assert(list.len() == 4);
    assert(list[0] == actions@[0]@ && list[1] == actions@[1]@);
    assert(list[2] == actions@[2]@ && list[3] == actions@[3]@);
    assert forall|i: int| 0 <= i < 4 implies (#[trigger] actions@[i]).created == created by {
        assert(list[i] == actions@[i]@);
        assert(list[i].created == created);
    }
}

/// Releases of two products or of two versions have two ids, and channels of
/// two products or of two names have two ids.
pub proof fn identifiers_make_distinct_ids(
    product: &str,
    other_product: &str,
    name: &str,
    other_name: &str,
    release: String,
    other_release: String,
    channel: String,
    other_channel: String,
    record: String,
    text: &str,
)
    requires
        identifier(product@),
        identifier(other_product@),
        identifier(name@),
        identifier(other_name@),
        call_ensures(release_id, (product, name), release),
        call_ensures(release_id, (other_product, other_name), other_release),
        call_ensures(channel_id, (product, name), channel),
        call_ensures(channel_id, (other_product, other_name), other_channel),
        text@ == release@,
        call_ensures(release_verification_id, (text,), record),
    ensures
        release@ == other_release@ ==> product@ == other_product@ && name@ == other_name@,
        channel@ == other_channel@ ==> product@ == other_product@ && name@ == other_name@,
        release@ == "tenkai:release:"@ + product@ + "@"@ + name@,
        channel@ == "tenkai:channel:"@ + product@ + "/"@ + name@,
        record@ == release@ + ":verification"@,
{
    if release@ == other_release@ {
        release_ids_are_distinct(product@, name@, other_product@, other_name@);
    }
    if channel@ == other_channel@ {
        channel_ids_are_distinct(product@, name@, other_product@, other_name@);
    }
}

/// What an object of a kind must say stands before what it may leave out.
pub proof fn schema_requires_what_identifies(types: Vec<ObjectType>, at: int, of: int)
    requires
        call_ensures(schema_types, (), types),
        0 <= at < types@.len(),
        0 <= of < types@[at].properties@.len(),
    ensures
        at == 0 ==> types@[at].kind@ == "tenkai.product"@ && !types@[at].properties@[of].required,
        at == 1 ==> types@[at].kind@ == "tenkai.release"@ && types@[at].properties@[of].required == (of < 5),
        at == 2 ==> types@[at].kind@ == "tenkai.release_verification"@ && types@[at].properties@[of].required,
        at == 3 ==> types@[at].kind@ == "tenkai.channel"@ && types@[at].properties@[of].required == (of < 2),
        at == 4 ==> types@[at].kind@ == "tenkai.environment"@ && !types@[at].properties@[of].required,
        at == 5 ==> types@[at].kind@ == "tenkai.maintenance_config"@ && types@[at].properties@[of].required == (of < 3),
        at == 6 ==> types@[at].kind@ == "tenkai.plan"@ && types@[at].properties@[of].required == (of < 6),
        at == 7 ==> types@[at].kind@ == "tenkai.environment_execution"@ && types@[at].properties@[of].required == (of < 3),
        at == 9 ==> types@[at].kind@ == "tenkai.canary_designation"@ && types@[at].properties@[of].required,
        at == 10 ==> types@[at].kind@ == "tenkai.canary_policy"@ && types@[at].properties@[of].required,
        at == 11 ==> types@[at].kind@ == "tenkai.canary_policy_pointer"@ && types@[at].properties@[of].required,
        at == 14 ==> types@[at].kind@ == "tenkai.promotion_audit"@ && types@[at].properties@[of].required,
        at == 15 ==> types@[at].kind@ == "tenkai.promotion_lock"@ && types@[at].properties@[of].required,
{
    let models = type_models(types@);
    assert(models.len() == 16);
    assert(models[at] == types@[at]@);
    let list = types@[at]@.properties;
    assert(list[of] == types@[at].properties@[of]@);
    assert(required_below(product_model().properties, 0));
    assert(required_below(release_model().properties, 5));
    assert(required_below(release_verification_model().properties, 8));
    assert(required_below(channel_model().properties, 2));
    assert(required_below(environment_model().properties, 0));
    assert(required_below(maintenance_config_model().properties, 3));
    assert(required_below(plan_model().properties, 6));
    assert(required_below(environment_execution_model().properties, 3));
    assert(required_below(canary_designation_model().properties, 1));
    assert(required_below(canary_policy_model().properties, 7));
    assert(required_below(canary_policy_pointer_model().properties, 4));
    assert(required_below(promotion_audit_model().properties, 7));
    assert(required_below(promotion_lock_model().properties, 1));
    assert(release_verification_model().properties.len() == 8);
    assert(canary_policy_model().properties.len() == 7);
    assert(canary_policy_pointer_model().properties.len() == 4);
    assert(promotion_audit_model().properties.len() == 7);
}

/// The first properties of a list are required, and no others.
pub open spec fn required_below(list: Seq<PropertyModel>, count: int) -> bool {
    forall|i: int| 0 <= i < list.len() ==> (#[trigger] list[i]).required == (i < count)
}

proof fn lemma_kinds_apart()
    ensures
        schema_models().map_values(|model: TypeModel| model.kind).no_duplicates(),
{
    reveal_strlit("tenkai.product");
    reveal_strlit("tenkai.release");
    reveal_strlit("tenkai.release_verification");
    reveal_strlit("tenkai.channel");
    reveal_strlit("tenkai.environment");
    reveal_strlit("tenkai.maintenance_config");
    reveal_strlit("tenkai.plan");
    reveal_strlit("tenkai.environment_execution");
    reveal_strlit("tenkai.deployment");
    reveal_strlit("tenkai.canary_designation");
    reveal_strlit("tenkai.canary_policy");
    reveal_strlit("tenkai.canary_policy_pointer");
    reveal_strlit("tenkai.canary_attempt");
    reveal_strlit("tenkai.canary_outcome");
    reveal_strlit("tenkai.promotion_audit");
    reveal_strlit("tenkai.promotion_lock");
    let kinds = schema_models().map_values(|model: TypeModel| model.kind);
    assert(kinds.len() == 16);
    assert(kinds[0] == "tenkai.product"@ && kinds[0].len() == 14 && kinds[0][7] == 'p');
    assert(kinds[1] == "tenkai.release"@ && kinds[1].len() == 14 && kinds[1][7] == 'r');
    assert(kinds[2].len() == 27);
    assert(kinds[3].len() == 14 && kinds[3][7] == 'c');
    assert(kinds[4].len() == 18 && kinds[4][7] == 'e');
    assert(kinds[5].len() == 25 && kinds[5][7] == 'm');
    assert(kinds[6].len() == 11);
    assert(kinds[7].len() == 28);
    assert(kinds[8].len() == 17);
    assert(kinds[9].len() == 25 && kinds[9][7] == 'c');
    assert(kinds[10].len() == 20);
    assert(kinds[11].len() == 28 && kinds[11][7] == 'c' && kinds[7][7] == 'e');
    assert(kinds[12].len() == 21 && kinds[12][14] == 'a');
    assert(kinds[13].len() == 21 && kinds[13][14] == 'o');
    assert(kinds[14].len() == 22);
    assert(kinds[15].len() == 21 && kinds[15][7] == 'p' && kinds[12][7] == 'c' && kinds[13][7] == 'c');
}

/// The kinds of the control plane are distinct, so that each has one type.
pub proof fn each_kind_has_one_type(types: Vec<ObjectType>, i: int, j: int)
    requires
        call_ensures(schema_types, (), types),
        0 <= i < j < types@.len(),
    ensures
        types@.len() == 16,
        types@[i].kind@ != types@[j].kind@,
{
    let models = type_models(types@);
    let kinds = models.map_values(|model: TypeModel| model.kind);
    lemma_kinds_apart();
    assert(models[i] == types@[i]@ && models[j] == types@[j]@);
    assert(kinds[i] == types@[i].kind@ && kinds[j] == types@[j].kind@);
}

} // verus!
