//! Declarations of the `xml-rs` value types the conversions in [`crate::dom`]
//! construct and take apart. All three are plain structs of public `String`,
//! `Option<String>` and `BTreeMap<String, String>` fields, so they need no
//! trusted contracts: Verus reads the fields themselves.

use vstd::prelude::*;
use xml::attribute::OwnedAttribute as XmlOwnedAttribute;
use xml::common::XmlVersion;
use xml::name::OwnedName as XmlOwnedName;
use xml::namespace::Namespace as XmlNamespace;
use xml::attribute::Attribute as XmlAttribute;
use xml::name::Name as XmlName;
use xml::reader::XmlEvent;

verus! {

#[verifier::external_type_specification]
pub struct ExXmlName<'a>(XmlName<'a>);

#[verifier::external_type_specification]
pub struct ExXmlAttribute<'a>(XmlAttribute<'a>);

#[verifier::external_type_specification]
pub struct ExXmlOwnedName(XmlOwnedName);

#[verifier::external_type_specification]
pub struct ExXmlOwnedAttribute(XmlOwnedAttribute);

#[verifier::external_type_specification]
pub struct ExXmlNamespace(XmlNamespace);

#[verifier::external_type_specification]
pub struct ExXmlVersion(XmlVersion);

#[verifier::external_type_specification]
pub struct ExXmlEvent(XmlEvent);

} // verus!
