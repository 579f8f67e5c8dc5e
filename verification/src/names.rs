use vstd::prelude::*;

verus! {

/// The shared system namespace: its types (such as the GUID structure) are never excluded.
/// These are the bytes of "System".
pub open spec fn spec_system_namespace() -> Seq<u8> {
    seq![83u8, 121u8, 115u8, 116u8, 101u8, 109u8]
}

/// The byte string "System".
pub fn system_namespace() -> (r: Vec<u8>)
    ensures
        r@ == spec_system_namespace(),
{
    let mut r: Vec<u8> = Vec::new();
    r.push(83);  // 'S'
    r.push(121);  // 'y'
    r.push(115);  // 's'
    r.push(116);  // 't'
    r.push(101);  // 'e'
    r.push(109);  // 'm'
    proof {
        assert(r@ =~= spec_system_namespace());
    }
    r
}

/// The foundation namespace, home of the event-token structure.
/// These are the bytes of "Windows.Foundation".
pub open spec fn spec_foundation_namespace() -> Seq<u8> {
    seq![87u8, 105u8, 110u8, 100u8, 111u8, 119u8, 115u8, 46u8, 70u8, 111u8, 117u8, 110u8, 100u8, 97u8, 116u8, 105u8, 111u8, 110u8]
}

/// The byte string "Windows.Foundation".
pub fn foundation_namespace() -> (r: Vec<u8>)
    ensures
        r@ == spec_foundation_namespace(),
{
    let mut r: Vec<u8> = Vec::new();
    r.push(87);  // 'W'
    r.push(105);  // 'i'
    r.push(110);  // 'n'
    r.push(100);  // 'd'
    r.push(111);  // 'o'
    r.push(119);  // 'w'
    r.push(115);  // 's'
    r.push(46);  // '.'
    r.push(70);  // 'F'
    r.push(111);  // 'o'
    r.push(117);  // 'u'
    r.push(110);  // 'n'
    r.push(100);  // 'd'
    r.push(97);  // 'a'
    r.push(116);  // 't'
    r.push(105);  // 'i'
    r.push(111);  // 'o'
    r.push(110);  // 'n'
    proof {
        assert(r@ =~= spec_foundation_namespace());
    }
    r
}

/// The name of the shared GUID structure.
/// These are the bytes of "Guid".
pub open spec fn spec_guid_name() -> Seq<u8> {
    seq![71u8, 117u8, 105u8, 100u8]
}

/// The byte string "Guid".
pub fn guid_name() -> (r: Vec<u8>)
    ensures
        r@ == spec_guid_name(),
{
    let mut r: Vec<u8> = Vec::new();
    r.push(71);  // 'G'
    r.push(117);  // 'u'
    r.push(105);  // 'i'
    r.push(100);  // 'd'
    proof {
        assert(r@ =~= spec_guid_name());
    }
    r
}

/// The event-token structure, passed as a signed 64-bit value at the binary boundary.
/// These are the bytes of "EventRegistrationToken".
pub open spec fn spec_event_token_name() -> Seq<u8> {
    seq![69u8, 118u8, 101u8, 110u8, 116u8, 82u8, 101u8, 103u8, 105u8, 115u8, 116u8, 114u8, 97u8, 116u8, 105u8, 111u8, 110u8, 84u8, 111u8, 107u8, 101u8, 110u8]
}

/// The byte string "EventRegistrationToken".
pub fn event_token_name() -> (r: Vec<u8>)
    ensures
        r@ == spec_event_token_name(),
{
    let mut r: Vec<u8> = Vec::new();
    r.push(69);  // 'E'
    r.push(118);  // 'v'
    r.push(101);  // 'e'
    r.push(110);  // 'n'
    r.push(116);  // 't'
    r.push(82);  // 'R'
    r.push(101);  // 'e'
    r.push(103);  // 'g'
    r.push(105);  // 'i'
    r.push(115);  // 's'
    r.push(116);  // 't'
    r.push(114);  // 'r'
    r.push(97);  // 'a'
    r.push(116);  // 't'
    r.push(105);  // 'i'
    r.push(111);  // 'o'
    r.push(110);  // 'n'
    r.push(84);  // 'T'
    r.push(111);  // 'o'
    r.push(107);  // 'k'
    r.push(101);  // 'e'
    r.push(110);  // 'n'
    proof {
        assert(r@ =~= spec_event_token_name());
    }
    r
}

/// The method every delegate must declare.
/// These are the bytes of "Invoke".
pub open spec fn spec_invoke_name() -> Seq<u8> {
    seq![73u8, 110u8, 118u8, 111u8, 107u8, 101u8]
}

/// The byte string "Invoke".
pub fn invoke_name() -> (r: Vec<u8>)
    ensures
        r@ == spec_invoke_name(),
{
    let mut r: Vec<u8> = Vec::new();
    r.push(73);  // 'I'
    r.push(110);  // 'n'
    r.push(118);  // 'v'
    r.push(111);  // 'o'
    r.push(107);  // 'k'
    r.push(101);  // 'e'
    proof {
        assert(r@ =~= spec_invoke_name());
    }
    r
}

/// The projected name of the synthesized default constructor.
/// These are the bytes of "new".
pub open spec fn spec_new_name() -> Seq<u8> {
    seq![110u8, 101u8, 119u8]
}

/// The byte string "new".
pub fn new_name() -> (r: Vec<u8>)
    ensures
        r@ == spec_new_name(),
{
    let mut r: Vec<u8> = Vec::new();
    r.push(110);  // 'n'
    r.push(101);  // 'e'
    r.push(119);  // 'w'
    proof {
        assert(r@ =~= spec_new_name());
    }
    r
}

/// The projected prefix of a property setter.
/// These are the bytes of "set".
pub open spec fn spec_set_prefix() -> Seq<u8> {
    seq![115u8, 101u8, 116u8]
}

/// The byte string "set".
pub fn set_prefix() -> (r: Vec<u8>)
    ensures
        r@ == spec_set_prefix(),
{
    let mut r: Vec<u8> = Vec::new();
    r.push(115);  // 's'
    r.push(101);  // 'e'
    r.push(116);  // 't'
    proof {
        assert(r@ =~= spec_set_prefix());
    }
    r
}

/// The projected prefix of an event-removal method.
/// These are the bytes of "remove".
pub open spec fn spec_remove_prefix() -> Seq<u8> {
    seq![114u8, 101u8, 109u8, 111u8, 118u8, 101u8]
}

/// The byte string "remove".
pub fn remove_prefix() -> (r: Vec<u8>)
    ensures
        r@ == spec_remove_prefix(),
{
    let mut r: Vec<u8> = Vec::new();
    r.push(114);  // 'r'
    r.push(101);  // 'e'
    r.push(109);  // 'm'
    r.push(111);  // 'o'
    r.push(118);  // 'v'
    r.push(101);  // 'e'
    proof {
        assert(r@ =~= spec_remove_prefix());
    }
    r
}

/// Marks a class's default instance interface.
/// These are the bytes of "DefaultAttribute".
pub open spec fn spec_default_attribute() -> Seq<u8> {
    seq![68u8, 101u8, 102u8, 97u8, 117u8, 108u8, 116u8, 65u8, 116u8, 116u8, 114u8, 105u8, 98u8, 117u8, 116u8, 101u8]
}

/// The byte string "DefaultAttribute".
pub fn default_attribute() -> (r: Vec<u8>)
    ensures
        r@ == spec_default_attribute(),
{
    let mut r: Vec<u8> = Vec::new();
    r.push(68);  // 'D'
    r.push(101);  // 'e'
    r.push(102);  // 'f'
    r.push(97);  // 'a'
    r.push(117);  // 'u'
    r.push(108);  // 'l'
    r.push(116);  // 't'
    r.push(65);  // 'A'
    r.push(116);  // 't'
    r.push(116);  // 't'
    r.push(114);  // 'r'
    r.push(105);  // 'i'
    r.push(98);  // 'b'
    r.push(117);  // 'u'
    r.push(116);  // 't'
    r.push(101);  // 'e'
    proof {
        assert(r@ =~= spec_default_attribute());
    }
    r
}

/// Marks an overridable interface edge.
/// These are the bytes of "OverridableAttribute".
pub open spec fn spec_overridable_attribute() -> Seq<u8> {
    seq![79u8, 118u8, 101u8, 114u8, 114u8, 105u8, 100u8, 97u8, 98u8, 108u8, 101u8, 65u8, 116u8, 116u8, 114u8, 105u8, 98u8, 117u8, 116u8, 101u8]
}

/// The byte string "OverridableAttribute".
pub fn overridable_attribute() -> (r: Vec<u8>)
    ensures
        r@ == spec_overridable_attribute(),
{
    let mut r: Vec<u8> = Vec::new();
    r.push(79);  // 'O'
    r.push(118);  // 'v'
    r.push(101);  // 'e'
    r.push(114);  // 'r'
    r.push(114);  // 'r'
    r.push(105);  // 'i'
    r.push(100);  // 'd'
    r.push(97);  // 'a'
    r.push(98);  // 'b'
    r.push(108);  // 'l'
    r.push(101);  // 'e'
    r.push(65);  // 'A'
    r.push(116);  // 't'
    r.push(116);  // 't'
    r.push(114);  // 'r'
    r.push(105);  // 'i'
    r.push(98);  // 'b'
    r.push(117);  // 'u'
    r.push(116);  // 't'
    r.push(101);  // 'e'
    proof {
        assert(r@ =~= spec_overridable_attribute());
    }
    r
}

/// Marks an interface as exclusive to one class.
/// These are the bytes of "ExclusiveToAttribute".
pub open spec fn spec_exclusive_attribute() -> Seq<u8> {
    seq![69u8, 120u8, 99u8, 108u8, 117u8, 115u8, 105u8, 118u8, 101u8, 84u8, 111u8, 65u8, 116u8, 116u8, 114u8, 105u8, 98u8, 117u8, 116u8, 101u8]
}

/// The byte string "ExclusiveToAttribute".
pub fn exclusive_attribute() -> (r: Vec<u8>)
    ensures
        r@ == spec_exclusive_attribute(),
{
    let mut r: Vec<u8> = Vec::new();
    r.push(69);  // 'E'
    r.push(120);  // 'x'
    r.push(99);  // 'c'
    r.push(108);  // 'l'
    r.push(117);  // 'u'
    r.push(115);  // 's'
    r.push(105);  // 'i'
    r.push(118);  // 'v'
    r.push(101);  // 'e'
    r.push(84);  // 'T'
    r.push(111);  // 'o'
    r.push(65);  // 'A'
    r.push(116);  // 't'
    r.push(116);  // 't'
    r.push(114);  // 'r'
    r.push(105);  // 'i'
    r.push(98);  // 'b'
    r.push(117);  // 'u'
    r.push(116);  // 't'
    r.push(101);  // 'e'
    proof {
        assert(r@ =~= spec_exclusive_attribute());
    }
    r
}

/// Names a class's static-members interface.
/// These are the bytes of "StaticAttribute".
pub open spec fn spec_static_attribute() -> Seq<u8> {
    seq![83u8, 116u8, 97u8, 116u8, 105u8, 99u8, 65u8, 116u8, 116u8, 114u8, 105u8, 98u8, 117u8, 116u8, 101u8]
}

/// The byte string "StaticAttribute".
pub fn static_attribute() -> (r: Vec<u8>)
    ensures
        r@ == spec_static_attribute(),
{
    let mut r: Vec<u8> = Vec::new();
    r.push(83);  // 'S'
    r.push(116);  // 't'
    r.push(97);  // 'a'
    r.push(116);  // 't'
    r.push(105);  // 'i'
    r.push(99);  // 'c'
    r.push(65);  // 'A'
    r.push(116);  // 't'
    r.push(116);  // 't'
    r.push(114);  // 'r'
    r.push(105);  // 'i'
    r.push(98);  // 'b'
    r.push(117);  // 'u'
    r.push(116);  // 't'
    r.push(101);  // 'e'
    proof {
        assert(r@ =~= spec_static_attribute());
    }
    r
}

/// Names a class's activation factory, or marks default activation.
/// These are the bytes of "ActivatableAttribute".
pub open spec fn spec_activatable_attribute() -> Seq<u8> {
    seq![65u8, 99u8, 116u8, 105u8, 118u8, 97u8, 116u8, 97u8, 98u8, 108u8, 101u8, 65u8, 116u8, 116u8, 114u8, 105u8, 98u8, 117u8, 116u8, 101u8]
}

/// The byte string "ActivatableAttribute".
pub fn activatable_attribute() -> (r: Vec<u8>)
    ensures
        r@ == spec_activatable_attribute(),
{
    let mut r: Vec<u8> = Vec::new();
    r.push(65);  // 'A'
    r.push(99);  // 'c'
    r.push(116);  // 't'
    r.push(105);  // 'i'
    r.push(118);  // 'v'
    r.push(97);  // 'a'
    r.push(116);  // 't'
    r.push(97);  // 'a'
    r.push(98);  // 'b'
    r.push(108);  // 'l'
    r.push(101);  // 'e'
    r.push(65);  // 'A'
    r.push(116);  // 't'
    r.push(116);  // 't'
    r.push(114);  // 'r'
    r.push(105);  // 'i'
    r.push(98);  // 'b'
    r.push(117);  // 'u'
    r.push(116);  // 't'
    r.push(101);  // 'e'
    proof {
        assert(r@ =~= spec_activatable_attribute());
    }
    r
}

/// Carries a type's GUID as positional arguments.
/// These are the bytes of "GuidAttribute".
pub open spec fn spec_guid_attribute() -> Seq<u8> {
    seq![71u8, 117u8, 105u8, 100u8, 65u8, 116u8, 116u8, 114u8, 105u8, 98u8, 117u8, 116u8, 101u8]
}

/// The byte string "GuidAttribute".
pub fn guid_attribute() -> (r: Vec<u8>)
    ensures
        r@ == spec_guid_attribute(),
{
    let mut r: Vec<u8> = Vec::new();
    r.push(71);  // 'G'
    r.push(117);  // 'u'
    r.push(105);  // 'i'
    r.push(100);  // 'd'
    r.push(65);  // 'A'
    r.push(116);  // 't'
    r.push(116);  // 't'
    r.push(114);  // 'r'
    r.push(105);  // 'i'
    r.push(98);  // 'b'
    r.push(117);  // 'u'
    r.push(116);  // 't'
    r.push(101);  // 'e'
    proof {
        assert(r@ =~= spec_guid_attribute());
    }
    r
}

/// Carries a method's explicit name override.
/// These are the bytes of "OverloadAttribute".
pub open spec fn spec_overload_attribute() -> Seq<u8> {
    seq![79u8, 118u8, 101u8, 114u8, 108u8, 111u8, 97u8, 100u8, 65u8, 116u8, 116u8, 114u8, 105u8, 98u8, 117u8, 116u8, 101u8]
}

/// The byte string "OverloadAttribute".
pub fn overload_attribute() -> (r: Vec<u8>)
    ensures
        r@ == spec_overload_attribute(),
{
    let mut r: Vec<u8> = Vec::new();
    r.push(79);  // 'O'
    r.push(118);  // 'v'
    r.push(101);  // 'e'
    r.push(114);  // 'r'
    r.push(108);  // 'l'
    r.push(111);  // 'o'
    r.push(97);  // 'a'
    r.push(100);  // 'd'
    r.push(65);  // 'A'
    r.push(116);  // 't'
    r.push(116);  // 't'
    r.push(114);  // 'r'
    r.push(105);  // 'i'
    r.push(98);  // 'b'
    r.push(117);  // 'u'
    r.push(116);  // 't'
    r.push(101);  // 'e'
    proof {
        assert(r@ =~= spec_overload_attribute());
    }
    r
}

} // verus!
