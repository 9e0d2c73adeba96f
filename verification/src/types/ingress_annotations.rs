//! The `headmaster.potatonode.github.io/config` annotation of an Ingress.
use crate::json;
use crate::json::Json;
use crate::text;
use vstd::prelude::*;

verus! {

/// The annotation that configures an Ingress.
pub const ANNOTATION_CONFIG: &'static str = "headmaster.potatonode.github.io/config";

/// How long a pre-auth key is valid, in seconds, where the annotation does not
/// say.
pub const DEFAULT_AUTH_KEY_EXPIRY_SECS: u64 = 600;

/// The validity of a pre-auth key where the annotation does not say.
pub fn default_auth_key_expiry_secs() -> (r: u64)
    ensures
        r == 600,
{
    DEFAULT_AUTH_KEY_EXPIRY_SECS
}

/// Why an Ingress has no usable configuration.
pub enum AnnotationError {
    /// The annotation is not there.
    Missing(&'static str),
    /// The annotation cannot be read.
    Invalid(&'static str, String),
    /// The annotation can be read and asks for something that cannot be done.
    InvalidAnnotations(&'static str),
}

impl AnnotationError {
    /// The error in words.
    pub fn message(&self) -> (r: String)
        ensures
            match self {
                AnnotationError::Missing(key) => r@ == "required annotation '"@ + key@
                    + "' is missing"@,
                AnnotationError::Invalid(key, why) => r@ == "invalid annotation '"@ + key@ + "': "@
                    + why@,
                AnnotationError::InvalidAnnotations(why) => r@ == "invalid annotations: "@ + why@,
            },
    {
        match self {
            AnnotationError::Missing(key) => text::cat3(
                "required annotation '",
                key,
                "' is missing",
            ),
            AnnotationError::Invalid(key, why) => text::cat4(
                "invalid annotation '",
                key,
                "': ",
                why.as_str(),
            ),
            AnnotationError::InvalidAnnotations(why) => text::cat2("invalid annotations: ", why),
        }
    }
}

/// One entry of the `access` list: who may reach the application, and with which
/// capabilities.
pub struct IngressAccessGrant {
    /// Source principals: `group:*`, `tag:*`, `autogroup:*`, `*`, or an address.
    pub from: Vec<String>,
    /// An object from capability name to argument list. Without it the grant
    /// allows plain IP connectivity.
    pub capabilities: Option<serde_json::Value>,
}

/// An [`IngressAccessGrant`] as plain values.
pub struct AccessV {
    pub from: Seq<Seq<char>>,
    pub capabilities: Option<Json>,
}

impl DeepView for IngressAccessGrant {
    type V = AccessV;

    open spec fn deep_view(&self) -> AccessV {
        AccessV {
            from: self.from.deep_view(),
            capabilities: match self.capabilities {
                Some(v) => Some(json::json(v)),
                None => None,
            },
        }
    }
}

/// The fields of the annotation as they stand in it.
pub struct IngressConfig {
    pub headscale_ref: String,
    pub headscale_namespace: Option<String>,
    pub user: Option<String>,
    pub managed_key_tags: Vec<String>,
    pub hostname: String,
    pub auth_key_expiry_secs: u64,
    pub auth_key_reusable: bool,
    pub access: Vec<IngressAccessGrant>,
}

/// The annotation of an Ingress once its JSON has been read.
pub enum ConfigAnnotation {
    /// There is no annotation.
    Absent,
    /// The text is not the expected JSON, and this is why.
    Malformed(String),
    /// The text was read.
    Present(IngressConfig),
}

/// The checked configuration of an Ingress.
pub struct IngressAnnotations {
    pub headscale_ref: String,
    /// The operator deployment that the Ingress is meant for; without it the
    /// default deployment.
    pub headscale_namespace: Option<String>,
    pub user: Option<String>,
    pub managed_key_tags: Vec<String>,
    pub hostname: String,
    pub auth_key_expiry_secs: u64,
    pub auth_key_reusable: bool,
    pub access: Vec<IngressAccessGrant>,
}

/// [`IngressAnnotations`] as plain values.
pub struct AnnotationsV {
    pub headscale_ref: Seq<char>,
    pub headscale_namespace: Option<Seq<char>>,
    pub user: Option<Seq<char>>,
    pub managed_key_tags: Seq<Seq<char>>,
    pub hostname: Seq<char>,
    pub auth_key_expiry_secs: u64,
    pub auth_key_reusable: bool,
    pub access: Seq<AccessV>,
}

impl View for IngressConfig {
    type V = AnnotationsV;

    open spec fn view(&self) -> AnnotationsV {
        AnnotationsV {
            headscale_ref: self.headscale_ref@,
            headscale_namespace: self.headscale_namespace.deep_view(),
            user: self.user.deep_view(),
            managed_key_tags: self.managed_key_tags.deep_view(),
            hostname: self.hostname@,
            auth_key_expiry_secs: self.auth_key_expiry_secs,
            auth_key_reusable: self.auth_key_reusable,
            access: self.access.deep_view(),
        }
    }
}

impl View for IngressAnnotations {
    type V = AnnotationsV;

    open spec fn view(&self) -> AnnotationsV {
        AnnotationsV {
            headscale_ref: self.headscale_ref@,
            headscale_namespace: self.headscale_namespace.deep_view(),
            user: self.user.deep_view(),
            managed_key_tags: self.managed_key_tags.deep_view(),
            hostname: self.hostname@,
            auth_key_expiry_secs: self.auth_key_expiry_secs,
            auth_key_reusable: self.auth_key_reusable,
            access: self.access.deep_view(),
        }
    }
}

/// A configuration names a user or at least one tag.
pub open spec fn has_identity(config: AnnotationsV) -> bool {
    config.user is Some || config.managed_key_tags.len() > 0
}

/// A configuration without a host name takes the name of its Ingress.
pub open spec fn with_hostname(config: AnnotationsV, ingress_name: Seq<char>) -> AnnotationsV {
    AnnotationsV {
        hostname: if config.hostname.len() == 0 {
            ingress_name
        } else {
            config.hostname
        },
        ..config
    }
}

impl IngressAnnotations {
    /// Checks the annotation of the Ingress called `ingress_name`.
    pub fn parse(config: ConfigAnnotation, ingress_name: &str) -> (r: Result<Self, AnnotationError>)
        ensures
            match config {
                ConfigAnnotation::Absent => r == Err::<Self, AnnotationError>(
                    AnnotationError::Missing(ANNOTATION_CONFIG),
                ),
                ConfigAnnotation::Malformed(why) => r == Err::<Self, AnnotationError>(
                    AnnotationError::Invalid(ANNOTATION_CONFIG, why),
                ),
                ConfigAnnotation::Present(c) => {
                    &&& r is Ok <==> has_identity(c@)
                    &&& r matches Ok(a) ==> a@ == with_hostname(c@, ingress_name@)
                    &&& r matches Err(e) ==> (e matches AnnotationError::InvalidAnnotations(why)
                        && why@ == "at least one of 'user' or 'managed-key-tags' must be set"@)
                },
            },
    {
        match config {
            ConfigAnnotation::Absent => Err(AnnotationError::Missing(ANNOTATION_CONFIG)),
            ConfigAnnotation::Malformed(why) => Err(
                AnnotationError::Invalid(ANNOTATION_CONFIG, why),
            ),
            ConfigAnnotation::Present(c) => {
                if c.user.is_none() && c.managed_key_tags.len() == 0 {
                    return Err(
                        AnnotationError::InvalidAnnotations(
                            "at least one of 'user' or 'managed-key-tags' must be set",
                        ),
                    );
                }
                let hostname: String = if c.hostname.as_str().unicode_len() == 0 {
                    ingress_name.to_owned()
                } else {
                    c.hostname
                };
                Ok(
                    IngressAnnotations {
                        headscale_ref: c.headscale_ref,
                        headscale_namespace: c.headscale_namespace,
                        user: c.user,
                        managed_key_tags: c.managed_key_tags,
                        hostname,
                        auth_key_expiry_secs: c.auth_key_expiry_secs,
                        auth_key_reusable: c.auth_key_reusable,
                        access: c.access,
                    },
                )
            },
        }
    }

    /// The `headscale-ref` of an annotation text, without checking the rest.
    pub fn headscale_ref(annotation: Option<&str>) -> (r: Option<String>)
        ensures
            r.deep_view() == named_field(annotation.deep_view(), "headscale-ref"@),
    {
        Self::field(annotation, "headscale-ref")
    }

    /// The `headscale-namespace` of an annotation text, without checking the rest.
    pub fn headscale_namespace(annotation: Option<&str>) -> (r: Option<String>)
        ensures
            r.deep_view() == named_field(annotation.deep_view(), "headscale-namespace"@),
    {
        Self::field(annotation, "headscale-namespace")
    }

    fn field(annotation: Option<&str>, key: &str) -> (r: Option<String>)
        ensures
            r.deep_view() == named_field(annotation.deep_view(), key@),
    {
        match annotation {
            Some(text) => match json::parse_json(text) {
                Ok(v) => json::text_field(&v, key),
                Err(_) => None,
            },
            None => None,
        }
    }
}

/// The text under `key` in a JSON annotation; nothing where there is no
/// annotation, it is not JSON, or there is no such text.
pub open spec fn named_field(annotation: Option<Seq<char>>, key: Seq<char>) -> Option<Seq<char>> {
    match annotation {
        Some(text) => match json::json_text(text) {
            Some(v) => json::text_of(v, key),
            None => None,
        },
        None => None,
    }
}

// Laws.

/// A configuration is usable exactly where it names a user or at least one tag. What comes
/// of it is what it says, field for field, but that one without a host name takes the name
/// of its Ingress.
pub proof fn configuration_is_taken_as_it_is(
    config: IngressConfig,
    ingress_name: Seq<char>,
    annotations: IngressAnnotations,
)
    requires
        annotations@ == with_hostname(config@, ingress_name),
    ensures
        has_identity(config@) <==> config.user is Some || config.managed_key_tags@.len() > 0,
        annotations.headscale_ref@ == config.headscale_ref@,
        annotations.headscale_namespace is Some <==> config.headscale_namespace is Some,
        annotations.headscale_namespace is Some ==> annotations.headscale_namespace->0@
            == config.headscale_namespace->0@,
        annotations.user is Some <==> config.user is Some,
        annotations.user is Some ==> annotations.user->0@ == config.user->0@,
        annotations.managed_key_tags.deep_view() == config.managed_key_tags.deep_view(),
        annotations.auth_key_expiry_secs == config.auth_key_expiry_secs,
        annotations.auth_key_reusable == config.auth_key_reusable,
        annotations.access.deep_view() == config.access.deep_view(),
        config.hostname@.len() > 0 ==> annotations.hostname@ == config.hostname@,
        config.hostname@.len() == 0 ==> annotations.hostname@ == ingress_name,
{
    assert(config.managed_key_tags.deep_view().len() == config.managed_key_tags@.len());
}

/// What an annotation says of one of its fields is the text that stands there in its JSON;
/// it says nothing where it is missing, is no JSON, or has no such text.
pub proof fn fields_are_read_from_the_annotation(
    annotation: Option<Seq<char>>,
    key: Seq<char>,
)
    ensures
        named_field(annotation, key) is Some <==> {
            &&& annotation is Some
            &&& json::json_text(annotation->0) matches Some(Json::Object(m))
            &&& m.dom().contains(key)
            &&& m[key] is Text
        },
        named_field(annotation, key) is Some ==> json::json_text(annotation->0)->0->Object_0[key]
            == Json::Text(named_field(annotation, key)->0),
        ANNOTATION_CONFIG@ == "headmaster.potatonode.github.io/config"@,
{
}

/// An access entry holds its principals, one for one, and its capabilities.
pub proof fn access_entries_are_seen_as_they_are(access: IngressAccessGrant, i: int)
    ensures
        access.deep_view().from.len() == access.from@.len(),
        0 <= i < access.from@.len() ==> access.deep_view().from[i] == access.from@[i]@,
        access.deep_view().capabilities is Some <==> access.capabilities is Some,
        access.capabilities is Some ==> access.deep_view().capabilities->0 == json::json(
            access.capabilities->0,
        ),
{
}

} // verus!
