//! The unified profile schema.
//!
//! Every scalar or collection field of the profile is wrapped in an attribute
//! envelope carrying visibility metadata and a signature structure; each field
//! has a fixed default envelope baked in at construction time, and merging
//! changes only the payload, never the metadata.
use vstd::prelude::*;

use crate::jsonval::{jm, jm_entries, JsonM, JsonVal};
use crate::text::sbytes;

verus! {

/// Signing algorithm of a publisher descriptor.
#[derive(Clone, Copy, PartialEq, Eq, Structural, Debug)]
pub enum Alg {
    Hs256,
    Rs256,
    Rsa,
    Ed25519,
}

/// Visibility classification of an envelope.
#[derive(Clone, Copy, PartialEq, Eq, Structural, Debug)]
pub enum Classification {
    MozillaConfidential,
    WorkgroupConfidentialStaffOnly,
    WorkgroupConfidential,
    Public,
    IndividualConfidential,
}

/// Display audience tag of an envelope.
#[derive(Clone, Copy, PartialEq, Eq, Structural, Debug)]
pub enum Display {
    Public,
    Authenticated,
    Vouched,
    Ndaed,
    Staff,
    Private,
}

/// Issuing authority of a signature.
#[derive(Clone, Copy, PartialEq, Eq, Structural, Debug)]
pub enum PublisherAuthority {
    Ldap,
    Mozilliansorg,
    Hris,
    Cis,
    AccessProvider,
}

/// Signature type of a publisher descriptor.
#[derive(Clone, Copy, PartialEq, Eq, Structural, Debug)]
pub enum Typ {
    Jws,
    Pgp,
}

/// Why a single record was dropped from the merge: the identity needed to
/// key it was missing, or a copied sub-field had the wrong shape.
#[derive(Clone, Copy, PartialEq, Eq, Structural, Debug)]
pub enum MapError {
    /// The directory record carries no primary email.
    MissingPrimaryEmail,
    /// The community record carries no username.
    MissingUsername,
    /// A copied sub-field has the wrong JSON shape.
    BadShape,
}

/// Visibility and provenance metadata of one envelope.
#[derive(Debug)]
pub struct Metadata {
    pub classification: Classification,
    pub created: Vec<u8>,
    pub display: Option<Display>,
    pub last_modified: Vec<u8>,
    pub verified: bool,
}

/// Model of [`Metadata`].
#[verifier::ext_equal]
pub struct MetadataM {
    pub classification: Classification,
    pub created: Seq<u8>,
    pub display: Option<Display>,
    pub last_modified: Seq<u8>,
    pub verified: bool,
}

impl View for Metadata {
    type V = MetadataM;

    open spec fn view(&self) -> MetadataM {
        MetadataM {
            classification: self.classification,
            created: self.created@,
            display: self.display,
            last_modified: self.last_modified@,
            verified: self.verified,
        }
    }
}

/// The metadata every fresh envelope starts from: empty timestamps, not
/// verified, with the given display and classification.
pub open spec fn metadata_with_m(display: Option<Display>, classification: Classification) -> MetadataM {
    MetadataM {
        classification,
        created: Seq::empty(),
        display,
        last_modified: Seq::empty(),
        verified: false,
    }
}

/// The default metadata: staff display, workgroup-confidential.
pub open spec fn metadata_default_m() -> MetadataM {
    metadata_with_m(Some(Display::Staff), Classification::WorkgroupConfidential)
}

impl Metadata {
    /// Fresh metadata with the given display and classification.
    pub fn with(display: Option<Display>, classification: Classification) -> (r: Metadata)
        ensures
            r@ == metadata_with_m(display, classification),
    {
        let r = Metadata {
            classification,
            created: Vec::new(),
            display,
            last_modified: Vec::new(),
            verified: false,
        };
        proof {
            assert(r@ =~= metadata_with_m(display, classification));
        }
        r
    }
}

impl Default for Metadata {
    fn default() -> (r: Metadata)
        ensures
            r@ == metadata_default_m(),
    {
        Metadata::with(Some(Display::Staff), Classification::WorkgroupConfidential)
    }
}

/// A publisher descriptor.
#[derive(Debug)]
pub struct Publisher {
    pub alg: Alg,
    pub name: PublisherAuthority,
    pub typ: Typ,
    pub value: Vec<u8>,
}

/// Model of [`Publisher`].
#[verifier::ext_equal]
pub struct PublisherM {
    pub alg: Alg,
    pub name: PublisherAuthority,
    pub typ: Typ,
    pub value: Seq<u8>,
}

impl View for Publisher {
    type V = PublisherM;

    open spec fn view(&self) -> PublisherM {
        PublisherM { alg: self.alg, name: self.name, typ: self.typ, value: self.value@ }
    }
}

/// A signature structure: the publisher's descriptor and any additional ones.
/// Signing itself is out of scope; the structure is carried, not computed.
#[derive(Debug)]
pub struct Signature {
    pub additional: Vec<Publisher>,
    pub publisher: Publisher,
}

/// Model of [`Signature`].
#[verifier::ext_equal]
pub struct SignatureM {
    pub additional: Seq<PublisherM>,
    pub publisher: PublisherM,
}

impl View for Signature {
    type V = SignatureM;

    open spec fn view(&self) -> SignatureM {
        SignatureM {
            additional: Seq::new(self.additional@.len(), |i: int| self.additional@[i]@),
            publisher: self.publisher@,
        }
    }
}

/// The default signature: an empty HS256 mozilliansorg JWS descriptor.
pub open spec fn signature_default_m() -> SignatureM {
    SignatureM {
        additional: Seq::empty(),
        publisher: PublisherM {
            alg: Alg::Hs256,
            name: PublisherAuthority::Mozilliansorg,
            typ: Typ::Jws,
            value: Seq::empty(),
        },
    }
}

impl Default for Signature {
    fn default() -> (r: Signature)
        ensures
            r@ == signature_default_m(),
    {
        let r = Signature {
            additional: Vec::new(),
            publisher: Publisher {
                alg: Alg::Hs256,
                name: PublisherAuthority::Mozilliansorg,
                typ: Typ::Jws,
                value: Vec::new(),
            },
        };
        proof {
            assert(r@ =~= signature_default_m());
        }
        r
    }
}

/// An envelope around a boolean payload.
#[derive(Debug)]
pub struct StandardAttributeBoolean {
    pub metadata: Metadata,
    pub signature: Signature,
    pub value: bool,
}

/// Model of [`StandardAttributeBoolean`].
#[verifier::ext_equal]
pub struct StandardAttributeBooleanM {
    pub metadata: MetadataM,
    pub signature: SignatureM,
    pub value: bool,
}

impl View for StandardAttributeBoolean {
    type V = StandardAttributeBooleanM;

    open spec fn view(&self) -> StandardAttributeBooleanM {
        StandardAttributeBooleanM {
            metadata: self.metadata@,
            signature: self.signature@,
            value: self.value,
        }
    }
}

/// A fresh boolean envelope's model.
pub open spec fn bool_attr_m(
    value: bool,
    display: Option<Display>,
    classification: Classification,
) -> StandardAttributeBooleanM {
    StandardAttributeBooleanM {
        metadata: metadata_with_m(display, classification),
        signature: signature_default_m(),
        value,
    }
}

impl StandardAttributeBoolean {
    /// A fresh boolean envelope.
    pub fn with(value: bool, display: Option<Display>, classification: Classification) -> (r:
        StandardAttributeBoolean)
        ensures
            r@ == bool_attr_m(value, display, classification),
    {
        StandardAttributeBoolean {
            metadata: Metadata::with(display, classification),
            signature: Signature::default(),
            value,
        }
    }
}

impl StandardAttributeBoolean {
    /// Replace the payload, keeping metadata and signature.
    pub fn set_value(self, v: bool) -> (r: StandardAttributeBoolean)
        ensures
            r@ == (StandardAttributeBooleanM { value: v, ..self@ }),
    {
        StandardAttributeBoolean { value: v, ..self }
    }
}

impl Default for StandardAttributeBoolean {
    fn default() -> (r: StandardAttributeBoolean)
        ensures
            r@ == bool_attr_m(false, Some(Display::Staff), Classification::WorkgroupConfidential),
    {
        StandardAttributeBoolean {
            metadata: Metadata::default(),
            signature: Signature::default(),
            value: false,
        }
    }
}

/// An envelope around an optional text payload.
#[derive(Debug)]
pub struct StandardAttributeString {
    pub metadata: Metadata,
    pub signature: Signature,
    pub value: Option<Vec<u8>>,
}

/// Model of [`StandardAttributeString`].
#[verifier::ext_equal]
pub struct StandardAttributeStringM {
    pub metadata: MetadataM,
    pub signature: SignatureM,
    pub value: Option<Seq<u8>>,
}

/// The view of an optional byte string.
pub open spec fn ob(o: Option<Vec<u8>>) -> Option<Seq<u8>> {
    match o {
        Some(v) => Some(v@),
        None => None,
    }
}

impl View for StandardAttributeString {
    type V = StandardAttributeStringM;

    open spec fn view(&self) -> StandardAttributeStringM {
        StandardAttributeStringM {
            metadata: self.metadata@,
            signature: self.signature@,
            value: ob(self.value),
        }
    }
}

/// A fresh text envelope's model: no payload yet.
pub open spec fn string_attr_m(
    display: Option<Display>,
    classification: Classification,
) -> StandardAttributeStringM {
    StandardAttributeStringM {
        metadata: metadata_with_m(display, classification),
        signature: signature_default_m(),
        value: None,
    }
}

impl StandardAttributeString {
    /// A fresh text envelope.
    pub fn with(display: Option<Display>, classification: Classification) -> (r:
        StandardAttributeString)
        ensures
            r@ == string_attr_m(display, classification),
    {
        StandardAttributeString {
            metadata: Metadata::with(display, classification),
            signature: Signature::default(),
            value: None,
        }
    }
}

impl StandardAttributeString {
    /// Replace the payload, keeping metadata and signature.
    pub fn set_value(self, v: Option<Vec<u8>>) -> (r: StandardAttributeString)
        ensures
            r@ == (StandardAttributeStringM { value: ob(v), ..self@ }),
    {
        StandardAttributeString { value: v, ..self }
    }
}

impl Default for StandardAttributeString {
    fn default() -> (r: StandardAttributeString)
        ensures
            r@ == string_attr_m(Some(Display::Staff), Classification::WorkgroupConfidential),
    {
        StandardAttributeString::with(Some(Display::Staff), Classification::WorkgroupConfidential)
    }
}

/// An envelope around an ordered-key mapping payload, keys unique.
#[derive(Debug)]
pub struct StandardAttributeValues {
    pub metadata: Metadata,
    pub signature: Signature,
    pub values: Vec<(Vec<u8>, JsonVal)>,
}

/// Model of [`StandardAttributeValues`].
#[verifier::ext_equal]
pub struct StandardAttributeValuesM {
    pub metadata: MetadataM,
    pub signature: SignatureM,
    pub values: Seq<(Seq<u8>, JsonM)>,
}

impl View for StandardAttributeValues {
    type V = StandardAttributeValuesM;

    open spec fn view(&self) -> StandardAttributeValuesM {
        StandardAttributeValuesM {
            metadata: self.metadata@,
            signature: self.signature@,
            values: jm_entries(self.values@),
        }
    }
}

/// A fresh mapping envelope's model: empty payload.
pub open spec fn values_attr_m(
    display: Option<Display>,
    classification: Classification,
) -> StandardAttributeValuesM {
    StandardAttributeValuesM {
        metadata: metadata_with_m(display, classification),
        signature: signature_default_m(),
        values: Seq::empty(),
    }
}

impl StandardAttributeValues {
    /// A fresh mapping envelope.
    pub fn with(display: Option<Display>, classification: Classification) -> (r:
        StandardAttributeValues)
        ensures
            r@ == values_attr_m(display, classification),
    {
        StandardAttributeValues {
            metadata: Metadata::with(display, classification),
            signature: Signature::default(),
            values: Vec::new(),
        }
    }
}

impl StandardAttributeValues {
    /// Replace the payload, keeping metadata and signature.
    pub fn set_values(self, v: Vec<(Vec<u8>, JsonVal)>) -> (r: StandardAttributeValues)
        ensures
            r@ == (StandardAttributeValuesM { values: jm_entries(v@), ..self@ }),
    {
        StandardAttributeValues { values: v, ..self }
    }
}

impl Default for StandardAttributeValues {
    fn default() -> (r: StandardAttributeValues)
        ensures
            r@ == values_attr_m(Some(Display::Staff), Classification::WorkgroupConfidential),
    {
        StandardAttributeValues::with(Some(Display::Staff), Classification::WorkgroupConfidential)
    }
}

/// An envelope around one source's access-information block, carried as a
/// whole JSON document.
#[derive(Debug)]
pub struct AccessInformationProviderSubObject {
    pub metadata: Metadata,
    pub signature: Signature,
    pub values: JsonVal,
}

/// Model of [`AccessInformationProviderSubObject`].
#[verifier::ext_equal]
pub struct AccessInformationProviderSubObjectM {
    pub metadata: MetadataM,
    pub signature: SignatureM,
    pub values: JsonM,
}

impl View for AccessInformationProviderSubObject {
    type V = AccessInformationProviderSubObjectM;

    open spec fn view(&self) -> AccessInformationProviderSubObjectM {
        AccessInformationProviderSubObjectM {
            metadata: self.metadata@,
            signature: self.signature@,
            values: jm(self.values),
        }
    }
}

/// A fresh access-information envelope's model: an empty object payload.
pub open spec fn provider_attr_m(
    display: Option<Display>,
    classification: Classification,
) -> AccessInformationProviderSubObjectM {
    AccessInformationProviderSubObjectM {
        metadata: metadata_with_m(display, classification),
        signature: signature_default_m(),
        values: JsonM::Obj(Seq::empty()),
    }
}

impl AccessInformationProviderSubObject {
    /// A fresh access-information envelope.
    pub fn with(display: Option<Display>, classification: Classification) -> (r:
        AccessInformationProviderSubObject)
        ensures
            r@ == provider_attr_m(display, classification),
    {
        AccessInformationProviderSubObject {
            metadata: Metadata::with(display, classification),
            signature: Signature::default(),
            values: JsonVal::Obj(Vec::new()),
        }
    }
}

impl AccessInformationProviderSubObject {
    /// Replace the payload, keeping metadata and signature.
    pub fn set_values(self, v: JsonVal) -> (r: AccessInformationProviderSubObject)
        ensures
            r@ == (AccessInformationProviderSubObjectM { values: jm(v), ..self@ }),
    {
        AccessInformationProviderSubObject { values: v, ..self }
    }
}

impl Default for AccessInformationProviderSubObject {
    fn default() -> (r: AccessInformationProviderSubObject)
        ensures
            r@ == provider_attr_m(None, Classification::WorkgroupConfidential),
    {
        AccessInformationProviderSubObject::with(None, Classification::WorkgroupConfidential)
    }
}

/// The per-source access-information envelopes.
#[derive(Debug)]
pub struct AccessInformationValuesArray {
    pub access_provider: AccessInformationProviderSubObject,
    pub hris: AccessInformationProviderSubObject,
    pub ldap: AccessInformationProviderSubObject,
    pub mozilliansorg: AccessInformationProviderSubObject,
}

/// Model of [`AccessInformationValuesArray`].
#[verifier::ext_equal]
pub struct AccessInformationValuesArrayM {
    pub access_provider: AccessInformationProviderSubObjectM,
    pub hris: AccessInformationProviderSubObjectM,
    pub ldap: AccessInformationProviderSubObjectM,
    pub mozilliansorg: AccessInformationProviderSubObjectM,
}

impl View for AccessInformationValuesArray {
    type V = AccessInformationValuesArrayM;

    open spec fn view(&self) -> AccessInformationValuesArrayM {
        AccessInformationValuesArrayM {
            access_provider: self.access_provider@,
            hris: self.hris@,
            ldap: self.ldap@,
            mozilliansorg: self.mozilliansorg@,
        }
    }
}

/// The default access-information block, with each source's fixed
/// classification and display.
pub open spec fn access_information_default_m() -> AccessInformationValuesArrayM {
    AccessInformationValuesArrayM {
        access_provider: provider_attr_m(None, Classification::WorkgroupConfidential),
        hris: provider_attr_m(None, Classification::WorkgroupConfidentialStaffOnly),
        ldap: provider_attr_m(None, Classification::Public),
        mozilliansorg: provider_attr_m(Some(Display::Staff), Classification::Public),
    }
}

impl Default for AccessInformationValuesArray {
    fn default() -> (r: AccessInformationValuesArray)
        ensures
            r@ == access_information_default_m(),
    {
        AccessInformationValuesArray {
            access_provider: AccessInformationProviderSubObject::default(),
            hris: AccessInformationProviderSubObject::with(
                None,
                Classification::WorkgroupConfidentialStaffOnly,
            ),
            ldap: AccessInformationProviderSubObject::with(None, Classification::Public),
            mozilliansorg: AccessInformationProviderSubObject::with(
                Some(Display::Staff),
                Classification::Public,
            ),
        }
    }
}

/// The per-provider identity envelopes.
#[derive(Debug)]
pub struct IdentitiesAttributesValuesArray {
    pub github_id_v3: StandardAttributeString,
    pub github_id_v4: StandardAttributeString,
    pub github_primary_email: StandardAttributeString,
    pub dinopark_id: StandardAttributeString,
    pub mozilliansorg_id: StandardAttributeString,
    pub bugzilla_mozilla_org_id: StandardAttributeString,
    pub bugzilla_mozilla_primary_email: StandardAttributeString,
    pub mozilla_ldap_id: StandardAttributeString,
    pub mozilla_ldap_primary_email: StandardAttributeString,
    pub mozilla_posix_id: StandardAttributeString,
    pub google_oauth2_id: StandardAttributeString,
    pub google_primary_email: StandardAttributeString,
    pub firefox_accounts_id: StandardAttributeString,
    pub firefox_accounts_primary_email: StandardAttributeString,
}

/// Model of [`IdentitiesAttributesValuesArray`].
#[verifier::ext_equal]
pub struct IdentitiesAttributesValuesArrayM {
    pub github_id_v3: StandardAttributeStringM,
    pub github_id_v4: StandardAttributeStringM,
    pub github_primary_email: StandardAttributeStringM,
    pub dinopark_id: StandardAttributeStringM,
    pub mozilliansorg_id: StandardAttributeStringM,
    pub bugzilla_mozilla_org_id: StandardAttributeStringM,
    pub bugzilla_mozilla_primary_email: StandardAttributeStringM,
    pub mozilla_ldap_id: StandardAttributeStringM,
    pub mozilla_ldap_primary_email: StandardAttributeStringM,
    pub mozilla_posix_id: StandardAttributeStringM,
    pub google_oauth2_id: StandardAttributeStringM,
    pub google_primary_email: StandardAttributeStringM,
    pub firefox_accounts_id: StandardAttributeStringM,
    pub firefox_accounts_primary_email: StandardAttributeStringM,
}

impl View for IdentitiesAttributesValuesArray {
    type V = IdentitiesAttributesValuesArrayM;

    open spec fn view(&self) -> IdentitiesAttributesValuesArrayM {
        IdentitiesAttributesValuesArrayM {
            github_id_v3: self.github_id_v3@,
            github_id_v4: self.github_id_v4@,
            github_primary_email: self.github_primary_email@,
            dinopark_id: self.dinopark_id@,
            mozilliansorg_id: self.mozilliansorg_id@,
            bugzilla_mozilla_org_id: self.bugzilla_mozilla_org_id@,
            bugzilla_mozilla_primary_email: self.bugzilla_mozilla_primary_email@,
            mozilla_ldap_id: self.mozilla_ldap_id@,
            mozilla_ldap_primary_email: self.mozilla_ldap_primary_email@,
            mozilla_posix_id: self.mozilla_posix_id@,
            google_oauth2_id: self.google_oauth2_id@,
            google_primary_email: self.google_primary_email@,
            firefox_accounts_id: self.firefox_accounts_id@,
            firefox_accounts_primary_email: self.firefox_accounts_primary_email@,
        }
    }
}

/// The default identity envelopes, with the public-display exceptions the
/// schema fixes.
pub open spec fn identities_default_m() -> IdentitiesAttributesValuesArrayM {
    IdentitiesAttributesValuesArrayM {
        github_id_v3: string_attr_m(Some(Display::Staff), Classification::WorkgroupConfidential),
        github_id_v4: string_attr_m(Some(Display::Staff), Classification::WorkgroupConfidential),
        github_primary_email: string_attr_m(
            Some(Display::Public),
            Classification::WorkgroupConfidential,
        ),
        dinopark_id: string_attr_m(Some(Display::Public), Classification::WorkgroupConfidential),
        mozilliansorg_id: string_attr_m(
            Some(Display::Staff),
            Classification::WorkgroupConfidential,
        ),
        bugzilla_mozilla_org_id: string_attr_m(
            Some(Display::Staff),
            Classification::WorkgroupConfidential,
        ),
        bugzilla_mozilla_primary_email: string_attr_m(
            Some(Display::Public),
            Classification::WorkgroupConfidential,
        ),
        mozilla_ldap_id: string_attr_m(Some(Display::Staff), Classification::WorkgroupConfidential),
        mozilla_ldap_primary_email: string_attr_m(
            Some(Display::Public),
            Classification::WorkgroupConfidential,
        ),
        mozilla_posix_id: string_attr_m(
            Some(Display::Staff),
            Classification::WorkgroupConfidential,
        ),
        google_oauth2_id: string_attr_m(
            Some(Display::Staff),
            Classification::WorkgroupConfidential,
        ),
        google_primary_email: string_attr_m(
            Some(Display::Public),
            Classification::WorkgroupConfidential,
        ),
        firefox_accounts_id: string_attr_m(
            Some(Display::Staff),
            Classification::WorkgroupConfidential,
        ),
        firefox_accounts_primary_email: string_attr_m(
            Some(Display::Public),
            Classification::WorkgroupConfidential,
        ),
    }
}

impl Default for IdentitiesAttributesValuesArray {
    fn default() -> (r: IdentitiesAttributesValuesArray)
        ensures
            r@ == identities_default_m(),
    {
        IdentitiesAttributesValuesArray {
            github_id_v3: StandardAttributeString::default(),
            github_id_v4: StandardAttributeString::default(),
            github_primary_email: StandardAttributeString::with(
                Some(Display::Public),
                Classification::WorkgroupConfidential,
            ),
            dinopark_id: StandardAttributeString::with(
                Some(Display::Public),
                Classification::WorkgroupConfidential,
            ),
            mozilliansorg_id: StandardAttributeString::with(
                Some(Display::Staff),
                Classification::WorkgroupConfidential,
            ),
            bugzilla_mozilla_org_id: StandardAttributeString::default(),
            bugzilla_mozilla_primary_email: StandardAttributeString::with(
                Some(Display::Public),
                Classification::WorkgroupConfidential,
            ),
            mozilla_ldap_id: StandardAttributeString::with(
                Some(Display::Staff),
                Classification::WorkgroupConfidential,
            ),
            mozilla_ldap_primary_email: StandardAttributeString::with(
                Some(Display::Public),
                Classification::WorkgroupConfidential,
            ),
            mozilla_posix_id: StandardAttributeString::default(),
            google_oauth2_id: StandardAttributeString::default(),
            google_primary_email: StandardAttributeString::with(
                Some(Display::Public),
                Classification::WorkgroupConfidential,
            ),
            firefox_accounts_id: StandardAttributeString::default(),
            firefox_accounts_primary_email: StandardAttributeString::with(
                Some(Display::Public),
                Classification::WorkgroupConfidential,
            ),
        }
    }
}

/// The staff-information envelopes.
#[derive(Debug)]
pub struct StaffInformationValuesArray {
    pub manager: StandardAttributeBoolean,
    pub director: StandardAttributeBoolean,
    pub staff: StandardAttributeBoolean,
    pub title: StandardAttributeString,
    pub team: StandardAttributeString,
    pub cost_center: StandardAttributeString,
    pub worker_type: StandardAttributeString,
    pub wpr_desk_number: StandardAttributeString,
    pub office_location: StandardAttributeString,
}

/// Model of [`StaffInformationValuesArray`].
#[verifier::ext_equal]
pub struct StaffInformationValuesArrayM {
    pub manager: StandardAttributeBooleanM,
    pub director: StandardAttributeBooleanM,
    pub staff: StandardAttributeBooleanM,
    pub title: StandardAttributeStringM,
    pub team: StandardAttributeStringM,
    pub cost_center: StandardAttributeStringM,
    pub worker_type: StandardAttributeStringM,
    pub wpr_desk_number: StandardAttributeStringM,
    pub office_location: StandardAttributeStringM,
}

impl View for StaffInformationValuesArray {
    type V = StaffInformationValuesArrayM;

    open spec fn view(&self) -> StaffInformationValuesArrayM {
        StaffInformationValuesArrayM {
            manager: self.manager@,
            director: self.director@,
            staff: self.staff@,
            title: self.title@,
            team: self.team@,
            cost_center: self.cost_center@,
            worker_type: self.worker_type@,
            wpr_desk_number: self.wpr_desk_number@,
            office_location: self.office_location@,
        }
    }
}

/// The default staff-information block.
pub open spec fn staff_information_default_m() -> StaffInformationValuesArrayM {
    StaffInformationValuesArrayM {
        manager: bool_attr_m(false, Some(Display::Staff), Classification::WorkgroupConfidential),
        director: bool_attr_m(false, Some(Display::Staff), Classification::WorkgroupConfidential),
        staff: bool_attr_m(false, Some(Display::Staff), Classification::WorkgroupConfidential),
        title: string_attr_m(Some(Display::Staff), Classification::WorkgroupConfidential),
        team: string_attr_m(Some(Display::Staff), Classification::WorkgroupConfidential),
        cost_center: string_attr_m(
            Some(Display::Staff),
            Classification::WorkgroupConfidentialStaffOnly,
        ),
        worker_type: string_attr_m(
            Some(Display::Staff),
            Classification::WorkgroupConfidentialStaffOnly,
        ),
        wpr_desk_number: string_attr_m(Some(Display::Staff), Classification::WorkgroupConfidential),
        office_location: string_attr_m(
            Some(Display::Staff),
            Classification::WorkgroupConfidential,
        ),
    }
}

impl Default for StaffInformationValuesArray {
    fn default() -> (r: StaffInformationValuesArray)
        ensures
            r@ == staff_information_default_m(),
    {
        StaffInformationValuesArray {
            manager: StandardAttributeBoolean::default(),
            director: StandardAttributeBoolean::default(),
            staff: StandardAttributeBoolean::default(),
            title: StandardAttributeString::default(),
            team: StandardAttributeString::default(),
            cost_center: StandardAttributeString::with(
                Some(Display::Staff),
                Classification::WorkgroupConfidentialStaffOnly,
            ),
            worker_type: StandardAttributeString::with(
                Some(Display::Staff),
                Classification::WorkgroupConfidentialStaffOnly,
            ),
            wpr_desk_number: StandardAttributeString::default(),
            office_location: StandardAttributeString::default(),
        }
    }
}

/// The unified profile: a fixed set of named attribute envelopes, one
/// produced per distinct identified person per run.
#[derive(Debug)]
pub struct Profile {
    pub access_information: AccessInformationValuesArray,
    pub active: StandardAttributeBoolean,
    pub alternative_name: StandardAttributeString,
    pub created: StandardAttributeString,
    pub description: StandardAttributeString,
    pub first_name: StandardAttributeString,
    pub fun_title: StandardAttributeString,
    pub identities: IdentitiesAttributesValuesArray,
    pub languages: StandardAttributeValues,
    pub last_modified: StandardAttributeString,
    pub last_name: StandardAttributeString,
    pub location: StandardAttributeString,
    pub login_method: StandardAttributeString,
    pub pgp_public_keys: StandardAttributeValues,
    pub phone_numbers: StandardAttributeValues,
    pub picture: StandardAttributeString,
    pub primary_email: StandardAttributeString,
    pub pronouns: StandardAttributeString,
    pub schema: Vec<u8>,
    pub ssh_public_keys: StandardAttributeValues,
    pub staff_information: StaffInformationValuesArray,
    pub tags: StandardAttributeValues,
    pub timezone: StandardAttributeString,
    pub uris: StandardAttributeValues,
    pub user_id: StandardAttributeString,
    pub usernames: StandardAttributeValues,
}

/// Model of [`Profile`].
#[verifier::ext_equal]
pub struct ProfileM {
    pub access_information: AccessInformationValuesArrayM,
    pub active: StandardAttributeBooleanM,
    pub alternative_name: StandardAttributeStringM,
    pub created: StandardAttributeStringM,
    pub description: StandardAttributeStringM,
    pub first_name: StandardAttributeStringM,
    pub fun_title: StandardAttributeStringM,
    pub identities: IdentitiesAttributesValuesArrayM,
    pub languages: StandardAttributeValuesM,
    pub last_modified: StandardAttributeStringM,
    pub last_name: StandardAttributeStringM,
    pub location: StandardAttributeStringM,
    pub login_method: StandardAttributeStringM,
    pub pgp_public_keys: StandardAttributeValuesM,
    pub phone_numbers: StandardAttributeValuesM,
    pub picture: StandardAttributeStringM,
    pub primary_email: StandardAttributeStringM,
    pub pronouns: StandardAttributeStringM,
    pub schema: Seq<u8>,
    pub ssh_public_keys: StandardAttributeValuesM,
    pub staff_information: StaffInformationValuesArrayM,
    pub tags: StandardAttributeValuesM,
    pub timezone: StandardAttributeStringM,
    pub uris: StandardAttributeValuesM,
    pub user_id: StandardAttributeStringM,
    pub usernames: StandardAttributeValuesM,
}

impl View for Profile {
    type V = ProfileM;

    open spec fn view(&self) -> ProfileM {
        ProfileM {
            access_information: self.access_information@,
            active: self.active@,
            alternative_name: self.alternative_name@,
            created: self.created@,
            description: self.description@,
            first_name: self.first_name@,
            fun_title: self.fun_title@,
            identities: self.identities@,
            languages: self.languages@,
            last_modified: self.last_modified@,
            last_name: self.last_name@,
            location: self.location@,
            login_method: self.login_method@,
            pgp_public_keys: self.pgp_public_keys@,
            phone_numbers: self.phone_numbers@,
            picture: self.picture@,
            primary_email: self.primary_email@,
            pronouns: self.pronouns@,
            schema: self.schema@,
            ssh_public_keys: self.ssh_public_keys@,
            staff_information: self.staff_information@,
            tags: self.tags@,
            timezone: self.timezone@,
            uris: self.uris@,
            user_id: self.user_id@,
            usernames: self.usernames@,
        }
    }
}

/// The schema identifier every profile carries.
pub open spec fn schema_url_m() -> Seq<u8> {
    sbytes("https://person-api.sso.mozilla.com/schema/v2/profile")
}

/// The all-default profile: the baseline every merge starts from, active
/// with no payloads set.
#[verifier::opaque]
pub open spec fn profile_default_m() -> ProfileM {
    ProfileM {
        access_information: access_information_default_m(),
        active: bool_attr_m(true, None, Classification::WorkgroupConfidential),
        alternative_name: string_attr_m(
            Some(Display::Staff),
            Classification::WorkgroupConfidential,
        ),
        created: string_attr_m(Some(Display::Private), Classification::Public),
        description: string_attr_m(Some(Display::Staff), Classification::WorkgroupConfidential),
        first_name: string_attr_m(Some(Display::Staff), Classification::Public),
        fun_title: string_attr_m(Some(Display::Staff), Classification::WorkgroupConfidential),
        identities: identities_default_m(),
        languages: values_attr_m(Some(Display::Staff), Classification::WorkgroupConfidential),
        last_modified: string_attr_m(Some(Display::Staff), Classification::Public),
        last_name: string_attr_m(Some(Display::Staff), Classification::Public),
        location: string_attr_m(Some(Display::Staff), Classification::WorkgroupConfidential),
        login_method: string_attr_m(Some(Display::Staff), Classification::Public),
        pgp_public_keys: values_attr_m(Some(Display::Staff), Classification::Public),
        phone_numbers: values_attr_m(Some(Display::Staff), Classification::WorkgroupConfidential),
        picture: string_attr_m(Some(Display::Staff), Classification::Public),
        primary_email: string_attr_m(Some(Display::Staff), Classification::Public),
        pronouns: string_attr_m(Some(Display::Staff), Classification::WorkgroupConfidential),
        schema: schema_url_m(),
        ssh_public_keys: values_attr_m(Some(Display::Staff), Classification::Public),
        staff_information: staff_information_default_m(),
        tags: values_attr_m(Some(Display::Staff), Classification::WorkgroupConfidential),
        timezone: string_attr_m(Some(Display::Staff), Classification::WorkgroupConfidential),
        uris: values_attr_m(Some(Display::Staff), Classification::WorkgroupConfidential),
        user_id: string_attr_m(Some(Display::Staff), Classification::Public),
        usernames: values_attr_m(Some(Display::Public), Classification::WorkgroupConfidential),
    }
}

impl Default for Profile {
    fn default() -> (r: Profile)
        ensures
            r@ == profile_default_m(),
    {
        let r = Profile {
            access_information: AccessInformationValuesArray::default(),
            active: StandardAttributeBoolean::with(
                true,
                None,
                Classification::WorkgroupConfidential,
            ),
            alternative_name: StandardAttributeString::default(),
            created: StandardAttributeString::with(Some(Display::Private), Classification::Public),
            description: StandardAttributeString::default(),
            first_name: StandardAttributeString::with(Some(Display::Staff), Classification::Public),
            fun_title: StandardAttributeString::default(),
            identities: IdentitiesAttributesValuesArray::default(),
            languages: StandardAttributeValues::default(),
            last_modified: StandardAttributeString::with(
                Some(Display::Staff),
                Classification::Public,
            ),
            last_name: StandardAttributeString::with(Some(Display::Staff), Classification::Public),
            location: StandardAttributeString::default(),
            login_method: StandardAttributeString::with(
                Some(Display::Staff),
                Classification::Public,
            ),
            pgp_public_keys: StandardAttributeValues::with(
                Some(Display::Staff),
                Classification::Public,
            ),
            phone_numbers: StandardAttributeValues::default(),
            picture: StandardAttributeString::with(Some(Display::Staff), Classification::Public),
            primary_email: StandardAttributeString::with(
                Some(Display::Staff),
                Classification::Public,
            ),
            pronouns: StandardAttributeString::default(),
            schema: crate::text::str_bytes("https://person-api.sso.mozilla.com/schema/v2/profile"),
            ssh_public_keys: StandardAttributeValues::with(
                Some(Display::Staff),
                Classification::Public,
            ),
            staff_information: StaffInformationValuesArray::default(),
            tags: StandardAttributeValues::default(),
            timezone: StandardAttributeString::default(),
            uris: StandardAttributeValues::default(),
            user_id: StandardAttributeString::with(Some(Display::Staff), Classification::Public),
            usernames: StandardAttributeValues::with(
                Some(Display::Public),
                Classification::WorkgroupConfidential,
            ),
        };
        proof {
            reveal(profile_default_m);
            assert(r@ =~~= profile_default_m());
        }
        r
    }
}

} // verus!
