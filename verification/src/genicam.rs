//! GenICam features a camera is configured with: their names, their values,
//! and the order in which a collection of them is applied.
use vstd::prelude::*;

use vstd::string::StringExecFns;

use crate::text::{char_is_alphanumeric, is_alphanumeric};

verus! {

/// A character a feature name may hold: an alphanumeric character, `_`,
/// `[` or `]`.
pub open spec fn is_feature_name_char(c: char) -> bool {
    is_alphanumeric(c) || c == '_' || c == '[' || c == ']'
}

/// Every character of `name` may stand in a feature name.
pub open spec fn is_valid_feature_name(name: Seq<char>) -> bool {
    forall|i: int| 0 <= i < name.len() ==> #[trigger] is_feature_name_char(name[i])
}

/// A key that is not a valid feature name, kept as it was given.
#[derive(Debug)]
pub struct InvalidGenicamKey(pub String);

impl InvalidGenicamKey {
    /// The message reported for the key: `Invalid genicam feature key '`,
    /// the key, and a closing `'`.
    pub fn message(&self) -> (r: String)
        ensures
            r@ == "Invalid genicam feature key '"@ + self.0@ + "'"@,
    {
        let mut text = String::from_str("Invalid genicam feature key '");
        text.append(self.0.as_str());
        text.append("'");
        text
    }
}

/// The name of a GenICam feature; it holds only alphanumeric characters,
/// `_`, `[` and `]`.
#[derive(Debug, Clone)]
pub struct FeatureName(String);

impl FeatureName {
    /// The characters of the name.
    pub closed spec fn name(&self) -> Seq<char> {
        self.0@
    }

    /// The name as text.
    pub fn as_str(&self) -> (r: &str)
        ensures
            r@ == self.name(),
    {
        self.0.as_str()
    }
}

impl TryFrom<String> for FeatureName {
    type Error = InvalidGenicamKey;

    /// Accepts `value` as a name exactly when each of its characters may
    /// stand in a feature name; otherwise hands it back in the error.
    fn try_from(value: String) -> (r: Result<FeatureName, InvalidGenicamKey>) {
        let mut valid = true;
        for c in iter: value.as_str().chars()
            invariant
                iter.seq() == value@,
                valid == forall|j: int| 0 <= j < iter.index() ==> #[trigger] is_feature_name_char(value@[j]),
        {
            let ghost idx = iter.index();
            let ghost was_valid = valid;
            assert(c == value@[idx]);
            if !char_is_alphanumeric(c) && !(c == '_' || c == '[' || c == ']') {
                valid = false;
            }
            proof {
                if was_valid && valid {
                    assert forall|j: int| 0 <= j < idx + 1 implies #[trigger] is_feature_name_char(
                        value@[j],
                    ) by {}
                } else if !valid && was_valid {
                    assert(!is_feature_name_char(value@[idx]));
                } else {
                    let k = choose|k: int| 0 <= k < idx && !#[trigger] is_feature_name_char(value@[k]);
                    assert(!is_feature_name_char(value@[k]));
                }
            }
        }
        if valid {
            Ok(FeatureName(value))
        } else {
            Err(InvalidGenicamKey(value))
        }
    }
}

impl vstd::std_specs::convert::TryFromSpecImpl<String> for FeatureName {
    open spec fn obeys_try_from_spec() -> bool {
        true
    }

    closed spec fn try_from_spec(v: String) -> Result<FeatureName, InvalidGenicamKey> {
        if is_valid_feature_name(v@) {
            Ok(FeatureName(v))
        } else {
            Err(InvalidGenicamKey(v))
        }
    }
}

/// What the conversion of `v` gives: a name with the characters of `v` when
/// each of them may stand in a feature name, and otherwise the key back.
pub proof fn lemma_feature_name_conversion(v: String)
    ensures
        <FeatureName as vstd::std_specs::convert::TryFromSpec<String>>::obeys_try_from_spec(),
        <FeatureName as vstd::std_specs::convert::TryFromSpec<String>>::try_from_spec(v) is Ok
            <==> is_valid_feature_name(v@),
        <FeatureName as vstd::std_specs::convert::TryFromSpec<String>>::try_from_spec(v) matches Ok(n)
            ==> n.name() == v@,
        <FeatureName as vstd::std_specs::convert::TryFromSpec<String>>::try_from_spec(v) matches Err(e)
            ==> e.0@ == v@,
{
}

/// Among ASCII characters, a feature name may hold exactly the letters,
/// the digits, `_`, `[` and `]`.
pub proof fn lemma_ascii_feature_name_chars(c: char)
    requires
        (c as u32) < 128,
    ensures
        is_feature_name_char(c) <==> (('a' <= c && c <= 'z') || ('A' <= c && c <= 'Z') || ('0' <= c
            && c <= '9') || c == '_' || c == '[' || c == ']'),
{
}

/// A key holding an ASCII character other than a letter, a digit, `_`, `[`
/// or `]` (such as `:`, `-`, `.`, `@` or a space) is refused, and handed
/// back unchanged in the error.
pub proof fn lemma_foreign_ascii_char_refuses_key(v: String, i: int)
    requires
        0 <= i < v@.len(),
        (v@[i] as u32) < 128,
        !(('a' <= v@[i] && v@[i] <= 'z') || ('A' <= v@[i] && v@[i] <= 'Z') || ('0' <= v@[i] && v@[i] <= '9')
            || v@[i] == '_' || v@[i] == '[' || v@[i] == ']'),
    ensures
        <FeatureName as vstd::std_specs::convert::TryFromSpec<String>>::try_from_spec(v) matches Err(e)
            && e.0@ == v@,
{
    lemma_ascii_feature_name_chars(v@[i]);
    assert(!is_feature_name_char(v@[i]));
}

/// The value a feature is set to. A floating point value is held as the
/// bits of its IEEE 754 double.
#[derive(Debug, Clone)]
pub enum FeatureValue {
    Bool(bool),
    Integer(i64),
    Float(u64),
    String(String),
}

impl FeatureValue {
    /// The value of an unsigned number read from a configuration: an
    /// integer feature value when it fits an `i64`, none otherwise.
    pub fn from_u64(v: u64) -> (r: Option<FeatureValue>)
        ensures
            r is Some <==> v <= i64::MAX,
            r matches Some(value) ==> value matches FeatureValue::Integer(i) && i == v,
    {
        if v > 0x7fff_ffff_ffff_ffff {
            None
        } else {
            Some(FeatureValue::Integer(v as i64))
        }
    }
}

/// The features a camera is configured with, applied in this order.
#[derive(Debug, Clone)]
pub struct GenicamFeatureCollection(Vec<(FeatureName, FeatureValue)>);

impl GenicamFeatureCollection {
    /// The number of features.
    pub closed spec fn spec_len(&self) -> nat {
        self.0@.len()
    }

    /// The features, in order.
    pub closed spec fn features(&self) -> Seq<(FeatureName, FeatureValue)> {
        self.0@
    }

    /// A collection of these features, in this order.
    pub fn new(features: Vec<(FeatureName, FeatureValue)>) -> (r: GenicamFeatureCollection)
        ensures
            r.features() == features@,
    {
        GenicamFeatureCollection(features)
    }

    /// The features, in order.
    pub fn entries(&self) -> (r: &Vec<(FeatureName, FeatureValue)>)
        ensures
            r@ == self.features(),
    {
        &self.0
    }

    /// The number of features.
    pub fn len(&self) -> (r: usize)
        ensures
            r == self.spec_len(),
            r == self.features().len(),
    {
        self.0.len()
    }

    /// The step that starts applying the features to a camera.
    pub fn first_step(&self) -> (r: ApplyStep)
        ensures
            r == first_apply_step(self.spec_len()),
    {
        if self.0.len() == 0 {
            ApplyStep::Done(0)
        } else {
            ApplyStep::Apply(0)
        }
    }

    /// The step after the camera accepted, or refused, the feature at
    /// `index`.
    pub fn next_step(&self, index: usize, accepted: bool) -> (r: ApplyStep)
        requires
            index < self.spec_len(),
        ensures
            r == next_apply_step(self.spec_len(), index as nat, accepted),
    {
        let n = self.0.len();
        if !accepted {
            ApplyStep::Failed(index)
        } else if index + 1 < n {
            ApplyStep::Apply(index + 1)
        } else {
            ApplyStep::Done(n)
        }
    }
}

impl Default for GenicamFeatureCollection {
    fn default() -> (r: GenicamFeatureCollection)
        ensures
            r.spec_len() == 0,
    {
        GenicamFeatureCollection(Vec::new())
    }
}

/// Where applying a collection of features to a camera stands.
#[derive(Debug, Clone, Copy, PartialEq, Eq, Structural)]
pub enum ApplyStep {
    /// Set the feature at this index next.
    Apply(usize),
    /// All features were set; this many.
    Done(usize),
    /// The camera refused the feature at this index; nothing after it is set.
    Failed(usize),
}

/// The first step for a collection of `len` features.
pub open spec fn first_apply_step(len: nat) -> ApplyStep {
    if len == 0 {
        ApplyStep::Done(0)
    } else {
        ApplyStep::Apply(0)
    }
}

/// The step after the feature at `index` of `len` was accepted or refused.
pub open spec fn next_apply_step(len: nat, index: nat, accepted: bool) -> ApplyStep {
    if !accepted {
        ApplyStep::Failed(index as usize)
    } else if index + 1 < len {
        ApplyStep::Apply((index + 1) as usize)
    } else {
        ApplyStep::Done(len as usize)
    }
}

/// Where stepping ends when the camera answers the feature at each index `i`
/// with `accepted[i]`, starting from `step`.
pub open spec fn run_apply(len: nat, accepted: Seq<bool>, step: ApplyStep) -> ApplyStep
    decreases len - match step {
        ApplyStep::Apply(i) => i as int,
        _ => len as int,
    },
{
    match step {
        ApplyStep::Apply(i) => if i < len && i < accepted.len() && len <= usize::MAX {
            run_apply(len, accepted, next_apply_step(len, i as nat, accepted[i as int]))
        } else {
            step
        },
        _ => step,
    }
}

/// Applying a collection sets the features in order and stops at the first
/// one the camera refuses: when the camera answers every feature, the run
/// ends with `Done(len)` if it accepted them all, and otherwise with
/// `Failed(i)` for the first refused index `i`.
pub proof fn lemma_apply_outcome(len: nat, accepted: Seq<bool>)
    requires
        accepted.len() == len,
        len <= usize::MAX,
    ensures
        (forall|i: int| 0 <= i < len ==> accepted[i]) ==> run_apply(len, accepted, first_apply_step(len))
            == ApplyStep::Done(len as usize),
        forall|j: int|
            0 <= j < len && !accepted[j] && (forall|i: int| 0 <= i < j ==> accepted[i]) ==> run_apply(
                len,
                accepted,
                first_apply_step(len),
            ) == ApplyStep::Failed(j as usize),
{
    if len > 0 {
        lemma_apply_from(len, accepted, 0);
    }
}

proof fn lemma_apply_from(len: nat, accepted: Seq<bool>, start: nat)
    requires
        accepted.len() == len,
        len <= usize::MAX,
        start < len,
        forall|i: int| 0 <= i < start ==> accepted[i],
    ensures
        (forall|i: int| start <= i < len ==> accepted[i]) ==> run_apply(
            len,
            accepted,
            ApplyStep::Apply(start as usize),
        ) == ApplyStep::Done(len as usize),
        forall|j: int|
            start <= j < len && !accepted[j] && (forall|i: int| 0 <= i < j ==> accepted[i]) ==> run_apply(
                len,
                accepted,
                ApplyStep::Apply(start as usize),
            ) == ApplyStep::Failed(j as usize),
    decreases len - start,
{
    let next = next_apply_step(len, start, accepted[start as int]);
    assert(run_apply(len, accepted, ApplyStep::Apply(start as usize)) == run_apply(len, accepted, next));
    if accepted[start as int] && start + 1 < len {
        lemma_apply_from(len, accepted, start + 1);
    }
}

} // verus!
