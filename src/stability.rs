//! Stability annotations, their ordering, and feature gating.
use vstd::prelude::*;
use vstd::string::*;
use std::cmp::Ordering;
use crate::version::{Version, version_order, int_order};
use crate::text::str_eq;

verus! {

/// The stability of a world, interface, function or type.
#[derive(Debug, Clone)]
pub enum Stability {
    /// No `@since` or `@unstable` annotation.
    Unknown,
    /// `@unstable(feature = ...)`: hidden unless the feature is enabled.
    Unstable { feature: String, deprecated: Option<Version> },
    /// `@since(version = ...)`: stable since the given version.
    Stable { since: Version, deprecated: Option<Version> },
}

/// Lexicographic order of two character sequences.
pub open spec fn text_order(a: Seq<char>, b: Seq<char>) -> Ordering
    decreases a.len(),
{
    if a.len() == 0 {
        if b.len() == 0 { Ordering::Equal } else { Ordering::Less }
    } else if b.len() == 0 {
        Ordering::Greater
    } else if (a[0] as u32) < (b[0] as u32) {
        Ordering::Less
    } else if (a[0] as u32) > (b[0] as u32) {
        Ordering::Greater
    } else {
        text_order(a.drop_first(), b.drop_first())
    }
}

/// Compares two strings character by character.
pub fn str_cmp(a: &str, b: &str) -> (r: Ordering)
    ensures
        r == text_order(a@, b@),
{
    let n = a.unicode_len();
    let m = b.unicode_len();
    let mut i: usize = 0;
    assert(a@.subrange(0, n as int) =~= a@);
    assert(b@.subrange(0, m as int) =~= b@);
    while i < n && i < m
        invariant
            n == a@.len(),
            m == b@.len(),
            i <= n,
            i <= m,
            text_order(a@, b@) == text_order(a@.subrange(i as int, n as int), b@.subrange(i as int, m as int)),
        decreases n - i,
    {
        let x = a.get_char(i);
        let y = b.get_char(i);
        let ghost sa = a@.subrange(i as int, n as int);
        let ghost sb = b@.subrange(i as int, m as int);
        assert(sa[0] == x && sb[0] == y);
        if (x as u32) < (y as u32) {
            return Ordering::Less;
        }
        if (x as u32) > (y as u32) {
            return Ordering::Greater;
        }
        assert(sa.drop_first() =~= a@.subrange(i + 1, n as int));
        assert(sb.drop_first() =~= b@.subrange(i + 1, m as int));
        i = i + 1;
    }
    if i < n {
        Ordering::Greater
    } else if i < m {
        Ordering::Less
    } else {
        Ordering::Equal
    }
}

/// The names held by a list of feature strings.
pub open spec fn feature_names(features: Seq<String>) -> Seq<Seq<char>> {
    features.map_values(|f: String| f@)
}

/// Order of two optional versions: absent before present.
pub open spec fn opt_version_order(a: Option<Version>, b: Option<Version>) -> Option<Ordering> {
    match (a, b) {
        (None, None) => Some(Ordering::Equal),
        (None, Some(_)) => Some(Ordering::Less),
        (Some(_), None) => Some(Ordering::Greater),
        (Some(x), Some(y)) => version_order(x, y),
    }
}

fn opt_version_cmp(a: &Option<Version>, b: &Option<Version>) -> (r: Option<Ordering>)
    ensures
        r == opt_version_order(*a, *b),
{
    match (a, b) {
        (None, None) => Some(Ordering::Equal),
        (None, Some(_)) => Some(Ordering::Less),
        (Some(_), None) => Some(Ordering::Greater),
        (Some(x), Some(y)) => x.compare(y),
    }
}

impl Stability {
    /// `Unknown` ranks lowest, then `Unstable`, then `Stable`.
    pub open spec fn rank(&self) -> int {
        match self {
            Stability::Unknown => 0,
            Stability::Unstable { .. } => 1,
            Stability::Stable { .. } => 2,
        }
    }

    /// The order of two stabilities: by rank, then by payload. `None` when
    /// the versions involved cannot be compared.
    pub open spec fn order(&self, other: &Stability) -> Option<Ordering> {
        if self.rank() != other.rank() {
            Some(int_order(self.rank(), other.rank()))
        } else {
            match (self, other) {
                (Stability::Unstable { feature: f1, deprecated: d1 }, Stability::Unstable { feature: f2, deprecated: d2 }) =>
                    if text_order(f1@, f2@) != Ordering::Equal {
                        Some(text_order(f1@, f2@))
                    } else {
                        opt_version_order(*d1, *d2)
                    },
                (Stability::Stable { since: s1, deprecated: d1 }, Stability::Stable { since: s2, deprecated: d2 }) =>
                    match version_order(*s1, *s2) {
                        Some(Ordering::Equal) => opt_version_order(*d1, *d2),
                        o => o,
                    },
                _ => Some(Ordering::Equal),
            }
        }
    }

    /// Whether an item with this stability is visible when the features in
    /// `features` are enabled, or all features when `all_features` is set.
    pub open spec fn visible(&self, features: Seq<Seq<char>>, all_features: bool) -> bool {
        match self {
            Stability::Unknown => true,
            Stability::Stable { .. } => true,
            Stability::Unstable { feature, .. } => all_features || features.contains(feature@),
        }
    }

    /// A copy of this stability.
    pub fn duplicate(&self) -> (r: Stability)
        ensures
            r == *self,
    {
        match self {
            Stability::Unknown => Stability::Unknown,
            Stability::Unstable { feature, deprecated } => Stability::Unstable {
                feature: feature.clone(),
                deprecated: match deprecated {
                    Some(v) => Some(v.duplicate()),
                    None => None,
                },
            },
            Stability::Stable { since, deprecated } => Stability::Stable {
                since: since.duplicate(),
                deprecated: match deprecated {
                    Some(v) => Some(v.duplicate()),
                    None => None,
                },
            },
        }
    }

    /// Whether this is `Stability::Unknown`.
    pub fn is_unknown(&self) -> (r: bool)
        ensures
            r == (*self is Unknown),
    {
        match self {
            Stability::Unknown => true,
            _ => false,
        }
    }

    /// Whether this is `Stability::Stable`.
    pub fn is_stable(&self) -> (r: bool)
        ensures
            r == (*self is Stable),
    {
        match self {
            Stability::Stable { .. } => true,
            _ => false,
        }
    }

    /// Compares two stabilities; see [`Stability::order`].
    pub fn compare(&self, other: &Stability) -> (r: Option<Ordering>)
        ensures
            r == self.order(other),
    {
        match (self, other) {
            (Stability::Unknown, Stability::Unknown) => Some(Ordering::Equal),
            (Stability::Unknown, _) => Some(Ordering::Less),
            (Stability::Unstable { .. }, Stability::Unknown) => Some(Ordering::Greater),
            (Stability::Unstable { feature: f1, deprecated: d1 }, Stability::Unstable { feature: f2, deprecated: d2 }) => {
                match str_cmp(f1.as_str(), f2.as_str()) {
                    Ordering::Equal => opt_version_cmp(d1, d2),
                    o => Some(o),
                }
            },
            (Stability::Unstable { .. }, Stability::Stable { .. }) => Some(Ordering::Less),
            (Stability::Stable { since: s1, deprecated: d1 }, Stability::Stable { since: s2, deprecated: d2 }) => {
                match s1.compare(s2) {
                    Some(Ordering::Equal) => opt_version_cmp(d1, d2),
                    o => o,
                }
            },
            (Stability::Stable { .. }, _) => Some(Ordering::Greater),
        }
    }

    /// Whether an item with this stability is visible under the given
    /// feature configuration.
    pub fn is_visible(&self, features: &Vec<String>, all_features: bool) -> (r: bool)
        ensures
            r == self.visible(feature_names(features@), all_features),
    {
        let ghost names = feature_names(features@);
        match self {
            Stability::Unknown => true,
            Stability::Stable { .. } => true,
            Stability::Unstable { feature, .. } => {
                if all_features {
                    return true;
                }
                let mut i: usize = 0;
                while i < features.len()
                    invariant
                        i <= features@.len(),
                        names == feature_names(features@),
                        *self is Unstable,
                        self->Unstable_feature@ == feature@,
                        !all_features,
                        forall|j: int| 0 <= j < i ==> names[j] != feature@,
                    decreases features@.len() - i,
                {
                    if str_eq(features[i].as_str(), feature.as_str()) {
                        assert(names[i as int] == feature@);
                        assert(names.contains(feature@));
                        return true;
                    }
                    i = i + 1;
                }
                assert(!names.contains(feature@));
                false
            },
        }
    }
}

impl Default for Stability {
    fn default() -> (r: Stability)
        ensures
            r is Unknown,
    {
        Stability::Unknown
    }
}

/// `Unknown` orders before every `Unstable`, which orders before every
/// `Stable`; a `Stable` item is visible under any feature configuration; an
/// `Unstable` item is visible exactly when its feature is requested or all
/// features are.
pub proof fn lemma_stability_order_and_gating(
    unknown: Stability,
    unstable: Stability,
    stable: Stability,
    features: Seq<Seq<char>>,
    all_features: bool,
)
    requires
        unknown is Unknown,
        unstable is Unstable,
        stable is Stable,
    ensures
        unknown.order(&unstable) == Some(Ordering::Less),
        unstable.order(&stable) == Some(Ordering::Less),
        unknown.order(&stable) == Some(Ordering::Less),
        stable.visible(features, all_features),
        unstable.visible(features, all_features) <==> (all_features || features.contains(
            unstable->Unstable_feature@,
        )),
{
}

} // verus!
