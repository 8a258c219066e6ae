//! Driver registry for geospatial data format support and capabilities.
//!
//! The registry is an explicit object, constructed once at startup and passed
//! by reference to consumers; isolated registries can be built per test.
//! Each driver carries its short and long name and the support status of its
//! info, read and write operations.

use vstd::prelude::*;

verus! {

use vstd::string::StringExecFns;

/// How far support for one operation of a driver has come.
#[derive(Debug, Clone, Copy, PartialEq, Eq, Structural)]
pub enum SupportStatus {
    /// Fully implemented.
    Supported,
    /// Not implemented and not planned.
    NotSupported,
    /// Intended, but not implemented yet.
    Planned,
}

impl SupportStatus {
    /// Fully supported, ready to use.
    pub fn is_supported(&self) -> (r: bool)
        ensures
            r == (*self is Supported),
    {
        matches!(*self, SupportStatus::Supported)
    }

    /// Supported now or planned for later.
    pub fn is_available(&self) -> (r: bool)
        ensures
            r == (*self is Supported || *self is Planned),
    {
        matches!(*self, SupportStatus::Supported | SupportStatus::Planned)
    }
}

/// The support status of each driver operation.
#[derive(Debug, Clone, Copy, PartialEq, Eq, Structural)]
pub struct DriverCapabilities {
    /// Reporting metadata about a dataset.
    pub info: SupportStatus,
    /// Reading datasets.
    pub read: SupportStatus,
    /// Writing datasets.
    pub write: SupportStatus,
}

impl DriverCapabilities {
    /// Whether at least one operation is fully supported.
    pub fn has_supported_operation(&self) -> (r: bool)
        ensures
            r == (self.info is Supported || self.read is Supported || self.write is Supported),
    {
        matches!(self.info, SupportStatus::Supported) || matches!(
            self.read,
            SupportStatus::Supported,
        ) || matches!(self.write, SupportStatus::Supported)
    }
}

/// A vector format driver: its names and its capabilities.
#[derive(Debug, Clone)]
pub struct Driver {
    /// The short name used to select the driver, e.g. `"GeoJSON"`.
    pub short_name: String,
    /// A human-readable name.
    pub long_name: String,
    /// What the driver can do.
    pub capabilities: DriverCapabilities,
}

/// The mathematical content of a driver: its names as character sequences
/// and its capabilities.
pub ghost struct DriverModel {
    pub short_name: Seq<char>,
    pub long_name: Seq<char>,
    pub capabilities: DriverCapabilities,
}

/// The model of a driver.
pub open spec fn driver_model(d: Driver) -> DriverModel {
    DriverModel {
        short_name: d.short_name@,
        long_name: d.long_name@,
        capabilities: d.capabilities,
    }
}

/// The models of a sequence of drivers, in order.
pub open spec fn driver_models(s: Seq<Driver>) -> Seq<DriverModel> {
    Seq::new(s.len(), |i: int| driver_model(s[i]))
}

/// The short names of a sequence of drivers, in order.
pub open spec fn short_names(s: Seq<Driver>) -> Seq<Seq<char>> {
    Seq::new(s.len(), |i: int| s[i].short_name@)
}

impl Driver {
    /// Create a driver from its names and the status of its operations.
    pub fn new(
        short_name: &str,
        long_name: &str,
        info: SupportStatus,
        read: SupportStatus,
        write: SupportStatus,
    ) -> (r: Driver)
        ensures
            r.short_name@ == short_name@,
            r.long_name@ == long_name@,
            r.capabilities == (DriverCapabilities { info, read, write }),
    {
        Driver {
            short_name: String::from_str(short_name),
            long_name: String::from_str(long_name),
            capabilities: DriverCapabilities { info, read, write },
        }
    }

    /// An exact copy of the driver.
    pub fn duplicate(&self) -> (r: Driver)
        ensures
            driver_model(r) == driver_model(*self),
    {
        Driver {
            short_name: self.short_name.clone(),
            long_name: self.long_name.clone(),
            capabilities: self.capabilities,
        }
    }
}

/// The registry of format drivers: the drivers registered so far, in
/// registration order, with distinct short names.
#[derive(Debug)]
pub struct DriverRegistry {
    /// The registered drivers.
    pub drivers: Vec<Driver>,
}

impl DriverRegistry {
    /// Creates a new empty driver registry.
    pub fn new() -> (r: Self)
        ensures
            r.drivers@.len() == 0,
    {
        DriverRegistry { drivers: Vec::new() }
    }

    /// Registers a driver.  A driver whose short name is already registered
    /// is ignored: the first registration wins.
    pub fn register(&mut self, driver: Driver) -> (added: bool)
        ensures
            added == !(exists|k: int|
                0 <= k < old(self).drivers@.len() && #[trigger] old(
                    self,
                ).drivers@[k].short_name@ == driver.short_name@),
            added ==> final(self).drivers@ == old(self).drivers@.push(driver),
            !added ==> final(self).drivers@ == old(self).drivers@,
    {
        let n = self.drivers.len();
        let mut k: usize = 0;
        while k < n
            invariant
                n == self.drivers@.len(),
                0 <= k <= n,
                forall|j: int| 0 <= j < k ==> #[trigger] self.drivers@[j].short_name@
                    != driver.short_name@,
        decreases n - k,
        {
            if self.drivers[k].short_name == driver.short_name {
                return false;
            }
            k = k + 1;
        }
        self.drivers.push(driver);
        true
    }

    /// Returns all registered drivers.
    pub fn get_available_drivers(&self) -> (r: Vec<Driver>)
        ensures
            driver_models(r@) == driver_models(self.drivers@),
    {
        copy_drivers(&self.drivers)
    }
}

/// An exact copy of a vector of drivers.
pub fn copy_drivers(drivers: &Vec<Driver>) -> (r: Vec<Driver>)
    ensures
        driver_models(r@) == driver_models(drivers@),
{
    let n = drivers.len();
    let mut out: Vec<Driver> = Vec::new();
    let mut k: usize = 0;
    while k < n
        invariant
            n == drivers@.len(),
            0 <= k <= n,
            out@.len() == k,
            forall|j: int| 0 <= j < k ==> driver_model(#[trigger] out@[j]) == driver_model(
                drivers@[j],
            ),
        decreases n - k,
    {
        out.push(drivers[k].duplicate());
        k = k + 1;
    }
    proof {
        assert(driver_models(out@) =~= driver_models(drivers@));
    }
    out
}

/// The lowered code of a character: ASCII capitals are mapped to their small
/// forms, every other character to its own code.
pub open spec fn lower_code(c: char) -> int {
    if 'A' <= c && c <= 'Z' {
        c as u32 + 32
    } else {
        c as u32 as int
    }
}

/// Case-insensitive (ASCII) equality of character sequences.
pub open spec fn eq_ignore_case(a: Seq<char>, b: Seq<char>) -> bool {
    a.len() == b.len() && forall|i: int|
        0 <= i < a.len() ==> lower_code(#[trigger] a[i]) == lower_code(b[i])
}

/// Compare two strings for equality, ignoring ASCII case.
pub fn str_eq_ignore_ascii_case(a: &str, b: &str) -> (r: bool)
    ensures
        r == eq_ignore_case(a@, b@),
{
    let na = a.unicode_len();
    let nb = b.unicode_len();
    if na != nb {
        return false;
    }
    let mut i: usize = 0;
    while i < na
        invariant
            na == a@.len(),
            nb == b@.len(),
            na == nb,
            0 <= i <= na,
            forall|j: int| 0 <= j < i ==> lower_code(#[trigger] a@[j]) == lower_code(b@[j]),
        decreases na - i,
    {
        let ca = a.get_char(i) as u32;
        let cb = b.get_char(i) as u32;
        let la: u32 = if 65 <= ca && ca <= 90 {
            ca + 32
        } else {
            ca
        };
        let lb: u32 = if 65 <= cb && cb <= 90 {
            cb + 32
        } else {
            cb
        };
        if la != lb {
            return false;
        }
        i = i + 1;
    }
    true
}

/// The models that pass a capability requirement: a driver is kept when it
/// fully supports every operation that is asked for.
pub open spec fn cap_ok(m: DriverModel, read: bool, write: bool, info: bool) -> bool {
    &&& (!read || m.capabilities.read is Supported)
    &&& (!write || m.capabilities.write is Supported)
    &&& (!info || m.capabilities.info is Supported)
}

/// The models with at least one fully supported operation.
pub open spec fn any_supported(m: DriverModel) -> bool {
    m.capabilities.info is Supported || m.capabilities.read is Supported
        || m.capabilities.write is Supported
}

/// The subsequence of models that pass a capability requirement.
pub open spec fn keep_caps(s: Seq<DriverModel>, read: bool, write: bool, info: bool) -> Seq<
    DriverModel,
>
    decreases s.len(),
{
    if s.len() == 0 {
        Seq::empty()
    } else if cap_ok(s[0], read, write, info) {
        seq![s[0]] + keep_caps(s.skip(1), read, write, info)
    } else {
        keep_caps(s.skip(1), read, write, info)
    }
}

/// The subsequence of models with at least one supported operation.
pub open spec fn keep_supported(s: Seq<DriverModel>) -> Seq<DriverModel>
    decreases s.len(),
{
    if s.len() == 0 {
        Seq::empty()
    } else if any_supported(s[0]) {
        seq![s[0]] + keep_supported(s.skip(1))
    } else {
        keep_supported(s.skip(1))
    }
}

/// Adding one model at the end extends the kept subsequence accordingly.
proof fn lemma_keep_caps_snoc(s: Seq<DriverModel>, m: DriverModel, read: bool, write: bool,
    info: bool)
    ensures
        keep_caps(s + seq![m], read, write, info) == keep_caps(s, read, write, info) + (if cap_ok(
            m,
            read,
            write,
            info,
        ) {
            seq![m]
        } else {
            Seq::empty()
        }),
    decreases s.len(),
{
    let tailm: Seq<DriverModel> = if cap_ok(m, read, write, info) {
        seq![m]
    } else {
        Seq::empty()
    };
    if s.len() == 0 {
        assert(s + seq![m] =~= seq![m]);
        assert((seq![m]).skip(1) =~= Seq::<DriverModel>::empty());
        assert(seq![m] + keep_caps(Seq::<DriverModel>::empty(), read, write, info) =~= seq![m]);
        assert(keep_caps(s, read, write, info) + tailm =~= tailm);
    } else {
        assert((s + seq![m]).skip(1) =~= s.skip(1) + seq![m]);
        lemma_keep_caps_snoc(s.skip(1), m, read, write, info);
        assert((s + seq![m])[0] == s[0]);
        if cap_ok(s[0], read, write, info) {
            assert(seq![s[0]] + (keep_caps(s.skip(1), read, write, info) + tailm) =~= (seq![s[0]]
                + keep_caps(s.skip(1), read, write, info)) + tailm);
        }
    }
}

/// Adding one model at the end extends the supported subsequence accordingly.
proof fn lemma_keep_supported_snoc(s: Seq<DriverModel>, m: DriverModel)
    ensures
        keep_supported(s + seq![m]) == keep_supported(s) + (if any_supported(m) {
            seq![m]
        } else {
            Seq::empty()
        }),
    decreases s.len(),
{
    let tailm: Seq<DriverModel> = if any_supported(m) {
        seq![m]
    } else {
        Seq::empty()
    };
    if s.len() == 0 {
        assert(s + seq![m] =~= seq![m]);
        assert((seq![m]).skip(1) =~= Seq::<DriverModel>::empty());
        assert(seq![m] + keep_supported(Seq::<DriverModel>::empty()) =~= seq![m]);
        assert(keep_supported(s) + tailm =~= tailm);
    } else {
        assert((s + seq![m]).skip(1) =~= s.skip(1) + seq![m]);
        lemma_keep_supported_snoc(s.skip(1), m);
        assert((s + seq![m])[0] == s[0]);
        if any_supported(s[0]) {
            assert(seq![s[0]] + (keep_supported(s.skip(1)) + tailm) =~= (seq![s[0]]
                + keep_supported(s.skip(1))) + tailm);
        }
    }
}

/// Returns all registered vector format drivers, in registration order.
pub fn get_drivers(registry: &DriverRegistry) -> (r: Vec<Driver>)
    ensures
        driver_models(r@) == driver_models(registry.drivers@),
{
    registry.get_available_drivers()
}

/// Returns all drivers that have at least one fully supported operation.
pub fn get_available_drivers(registry: &DriverRegistry) -> (r: Vec<Driver>)
    ensures
        driver_models(r@) == keep_supported(driver_models(registry.drivers@)),
{
    let all = get_drivers(registry);
    let n = all.len();
    let mut out: Vec<Driver> = Vec::new();
    let mut k: usize = 0;
    proof {
        assert(driver_models(all@).take(0) =~= Seq::<DriverModel>::empty());
        assert(keep_supported(Seq::<DriverModel>::empty()) =~= Seq::<DriverModel>::empty());
        assert(driver_models(out@) =~= Seq::<DriverModel>::empty());
    }
    while k < n
        invariant
            n == all@.len(),
            0 <= k <= n,
            driver_models(all@) == driver_models(registry.drivers@),
            driver_models(out@) == keep_supported(driver_models(all@).take(k as int)),
        decreases n - k,
    {
        let ghost models = driver_models(all@);
        let ghost out_before = out@;
        if all[k].capabilities.has_supported_operation() {
            out.push(all[k].duplicate());
            proof {
                assert(driver_models(out@) =~= driver_models(out_before) + seq![
                    models[k as int],
                ]);
            }
        }
        proof {
            assert(models.take(k + 1 as int) =~= models.take(k as int) + seq![models[k as int]]);
            lemma_keep_supported_snoc(models.take(k as int), models[k as int]);
            if !any_supported(models[k as int]) {
                assert(keep_supported(models.take(k as int)) + Seq::<DriverModel>::empty()
                    =~= keep_supported(models.take(k as int)));
            }
        }
        k = k + 1;
    }
    proof {
        assert(driver_models(all@).take(n as int) =~= driver_models(all@));
    }
    out
}

/// Finds a driver by its short name, ignoring ASCII case; the first match
/// wins.  Returns `None` if no driver with the given name is registered.
pub fn find_driver(registry: &DriverRegistry, name: &str) -> (r: Option<Driver>)
    ensures
        ({
            let models = driver_models(registry.drivers@);
            match r {
                Some(d) => exists|k: int|
                    {
                        &&& 0 <= k < models.len()
                        &&& eq_ignore_case(#[trigger] models[k].short_name, name@)
                        &&& driver_model(d) == models[k]
                        &&& forall|j: int|
                            0 <= j < k ==> !eq_ignore_case(
                                #[trigger] models[j].short_name,
                                name@,
                            )
                    },
                None => forall|k: int|
                    0 <= k < models.len() ==> !eq_ignore_case(
                        #[trigger] models[k].short_name,
                        name@,
                    ),
            }
        }),
{
    let n = registry.drivers.len();
    let mut k: usize = 0;
    while k < n
        invariant
            n == registry.drivers@.len(),
            0 <= k <= n,
            forall|j: int| 0 <= j < k ==> !eq_ignore_case(
                #[trigger] driver_models(registry.drivers@)[j].short_name,
                name@,
            ),
        decreases n - k,
    {
        if str_eq_ignore_ascii_case(registry.drivers[k].short_name.as_str(), name) {
            let found = registry.drivers[k].duplicate();
            proof {
                let models = driver_models(registry.drivers@);
                assert(models[k as int].short_name == registry.drivers@[k as int].short_name@);
                assert(eq_ignore_case(models[k as int].short_name, name@));
                assert(driver_model(found) == models[k as int]);
            }
            return Some(found);
        }
        k = k + 1;
    }
    None
}

/// Lists all drivers that fully support the requested operations: an
/// operation passed as `false` is not required.
pub fn list_drivers_with_capability(
    registry: &DriverRegistry,
    read: bool,
    write: bool,
    info: bool,
) -> (r: Vec<Driver>)
    ensures
        driver_models(r@) == keep_caps(driver_models(registry.drivers@), read, write, info),
{
    let n = registry.drivers.len();
    let mut out: Vec<Driver> = Vec::new();
    let mut k: usize = 0;
    proof {
        assert(driver_models(registry.drivers@).take(0) =~= Seq::<DriverModel>::empty());
        assert(keep_caps(Seq::<DriverModel>::empty(), read, write, info)
            =~= Seq::<DriverModel>::empty());
        assert(driver_models(out@) =~= Seq::<DriverModel>::empty());
    }
    while k < n
        invariant
            n == registry.drivers@.len(),
            0 <= k <= n,
            driver_models(out@) == keep_caps(
                driver_models(registry.drivers@).take(k as int),
                read,
                write,
                info,
            ),
        decreases n - k,
    {
        let ghost models = driver_models(registry.drivers@);
        let ghost out_before = out@;
        let d = &registry.drivers[k];
        let read_ok = !read || d.capabilities.read.is_supported();
        let write_ok = !write || d.capabilities.write.is_supported();
        let info_ok = !info || d.capabilities.info.is_supported();
        if read_ok && write_ok && info_ok {
            out.push(d.duplicate());
            proof {
                assert(driver_models(out@) =~= driver_models(out_before) + seq![
                    models[k as int],
                ]);
            }
        }
        proof {
            assert(models.take(k + 1 as int) =~= models.take(k as int) + seq![models[k as int]]);
            lemma_keep_caps_snoc(models.take(k as int), models[k as int], read, write, info);
            if !cap_ok(models[k as int], read, write, info) {
                assert(keep_caps(models.take(k as int), read, write, info)
                    + Seq::<DriverModel>::empty() =~= keep_caps(
                    models.take(k as int),
                    read,
                    write,
                    info,
                ));
            }
        }
        k = k + 1;
    }
    proof {
        assert(driver_models(registry.drivers@).take(n as int) =~= driver_models(
            registry.drivers@,
        ));
    }
    out
}

/// Lexicographic order on character sequences, by code point.
pub open spec fn lex_le(a: Seq<char>, b: Seq<char>) -> bool
    decreases a.len(),
{
    if a.len() == 0 {
        true
    } else if b.len() == 0 {
        false
    } else if a[0] == b[0] {
        lex_le(a.skip(1), b.skip(1))
    } else {
        (a[0] as u32) < (b[0] as u32)
    }
}

/// Any two character sequences are ordered one way or the other.
pub proof fn lemma_lex_total(a: Seq<char>, b: Seq<char>)
    ensures
        lex_le(a, b) || lex_le(b, a),
    decreases a.len(),
{
    if a.len() != 0 && b.len() != 0 {
        if a[0] == b[0] {
            lemma_lex_total(a.skip(1), b.skip(1));
        } else {
            // distinct characters have distinct code points
            vstd::utf8::char_u32_cast(a[0], a[0] as u32);
            vstd::utf8::char_u32_cast(b[0], b[0] as u32);
        }
    }
}

/// The lexicographic order is transitive.
pub proof fn lemma_lex_trans(a: Seq<char>, b: Seq<char>, c: Seq<char>)
    requires
        lex_le(a, b),
        lex_le(b, c),
    ensures
        lex_le(a, c),
    decreases a.len(),
{
    if a.len() != 0 && b.len() != 0 && c.len() != 0 && a[0] == b[0] && b[0] == c[0] {
        lemma_lex_trans(a.skip(1), b.skip(1), c.skip(1));
    }
}

/// Decide the lexicographic order of two strings.
pub fn str_le(a: &str, b: &str) -> (r: bool)
    ensures
        r == lex_le(a@, b@),
{
    let na = a.unicode_len();
    let nb = b.unicode_len();
    let mut pos: usize = 0;
    proof {
        assert(a@.skip(0) =~= a@);
        assert(b@.skip(0) =~= b@);
    }
    loop
        invariant
            na == a@.len(),
            nb == b@.len(),
            0 <= pos <= na,
            0 <= pos <= nb,
            lex_le(a@, b@) == lex_le(a@.skip(pos as int), b@.skip(pos as int)),
            lex_le(b@, a@) == lex_le(b@.skip(pos as int), a@.skip(pos as int)),
        decreases na - pos,
    {
        if pos >= na {
            proof {
                assert(a@.skip(pos as int).len() == 0);
            }
            return true;
        }
        if pos >= nb {
            proof {
                assert(b@.skip(pos as int).len() == 0);
                assert(a@.skip(pos as int).len() != 0);
            }
            return false;
        }
        let ca = a.get_char(pos);
        let cb = b.get_char(pos);
        proof {
            assert(a@.skip(pos as int)[0] == a@[pos as int]);
            assert(b@.skip(pos as int)[0] == b@[pos as int]);
        }
        if ca != cb {
            return (ca as u32) < (cb as u32);
        }
        proof {
            assert(a@.skip(pos as int).skip(1) =~= a@.skip(pos + 1));
            assert(b@.skip(pos as int).skip(1) =~= b@.skip(pos + 1));
        }
        pos = pos + 1;
    }
}

/// A sequence of strings in non-decreasing lexicographic order.
pub open spec fn sorted_strings(s: Seq<String>) -> bool {
    forall|i: int, j: int| 0 <= i < j < s.len() ==> lex_le(#[trigger] s[i]@, #[trigger] s[j]@)
}

/// The short name strings of a sequence of drivers, in order.
pub open spec fn name_strings(s: Seq<Driver>) -> Seq<String> {
    Seq::new(s.len(), |i: int| s[i].short_name)
}

/// The views of a sequence of strings, in order.
pub open spec fn string_views(s: Seq<String>) -> Seq<Seq<char>> {
    Seq::new(s.len(), |i: int| s[i]@)
}

/// Insert a string into a sorted vector, keeping it sorted; the contents
/// gain exactly the inserted string.
fn sorted_insert(out: &mut Vec<String>, x: String)
    requires
        sorted_strings(old(out)@),
    ensures
        sorted_strings(final(out)@),
        final(out)@.to_multiset() == old(out)@.to_multiset().insert(x),
        final(out)@.len() == old(out)@.len() + 1,
{
    broadcast use vstd::multiset::group_multiset_axioms;

    let n = out.len();
    let ghost s = out@;
    let mut pos: usize = 0;
    loop
        invariant
            n == out@.len(),
            s == out@,
            0 <= pos <= n,
            forall|j: int| 0 <= j < pos ==> lex_le(#[trigger] out@[j]@, x@),
        ensures
            pos <= n,
            s == out@,
            forall|j: int| 0 <= j < pos ==> lex_le(#[trigger] out@[j]@, x@),
            pos < n ==> !lex_le(out@[pos as int]@, x@),
        decreases n - pos,
    {
        if pos >= n {
            break ;
        }
        if !str_le(out[pos].as_str(), x.as_str()) {
            break ;
        }
        pos = pos + 1;
    }
    out.insert(pos, x);
    proof {
        let t = out@;
        assert forall|i: int, j: int| 0 <= i < j < t.len() implies lex_le(
            #[trigger] t[i]@,
            #[trigger] t[j]@,
        ) by {
            if j < pos {
                assert(t[i] == s[i] && t[j] == s[j]);
            } else if i < pos && j == pos {
                assert(t[i] == s[i]);
            } else if i < pos && j > pos {
                assert(t[i] == s[i] && t[j] == s[j - 1]);
                if j - 1 == pos {
                    // neighbours across the insertion point
                    lemma_lex_total(s[j - 1]@, x@);
                    lemma_lex_trans(t[i]@, x@, t[j]@);
                } else {
                }
            } else if i == pos {
                assert(t[i] == x && t[j] == s[j - 1]);
                lemma_lex_total(s[pos as int]@, x@);
                if j - 1 > pos {
                    lemma_lex_trans(x@, s[pos as int]@, s[j - 1]@);
                }
            } else {
                assert(t[i] == s[i - 1] && t[j] == s[j - 1]);
            }
        }
        // the contents gained exactly x
        vstd::seq_lib::lemma_multiset_commutative(s.take(pos as int), seq![x] + s.skip(pos as int));
        vstd::seq_lib::lemma_multiset_commutative(seq![x], s.skip(pos as int));
        vstd::seq_lib::lemma_multiset_commutative(s.take(pos as int), s.skip(pos as int));
        assert(t =~= s.take(pos as int) + (seq![x] + s.skip(pos as int)));
        assert(s.take(pos as int) + s.skip(pos as int) =~= s);
        assert(seq![x] =~= Seq::<String>::empty().push(x));
        Seq::<String>::empty().to_multiset_ensures();
        s.to_multiset_ensures();
        assert(Seq::<String>::empty().to_multiset() =~= vstd::multiset::Multiset::<
            String,
        >::empty());
        assert(seq![x].to_multiset() =~= vstd::multiset::Multiset::<String>::empty().insert(x));
        assert(t.to_multiset() =~= s.to_multiset().insert(x));
    }
}

/// Returns the short names of all registered drivers, in alphabetically
/// (lexicographically) sorted order.
pub fn get_driver_names(registry: &DriverRegistry) -> (r: Vec<String>)
    ensures
        r@.len() == registry.drivers@.len(),
        sorted_strings(r@),
        r@.to_multiset() == name_strings(registry.drivers@).to_multiset(),
{
    let n = registry.drivers.len();
    let ghost names = name_strings(registry.drivers@);
    let mut out: Vec<String> = Vec::new();
    let mut k: usize = 0;
    proof {
        assert(names.take(0) =~= Seq::<String>::empty());
        assert(out@ =~= Seq::<String>::empty());
    }
    while k < n
        invariant
            n == registry.drivers@.len(),
            names == name_strings(registry.drivers@),
            0 <= k <= n,
            out@.len() == k,
            sorted_strings(out@),
            out@.to_multiset() == names.take(k as int).to_multiset(),
        decreases n - k,
    {
        sorted_insert(&mut out, registry.drivers[k].short_name.clone());
        proof {
            assert(names.take(k + 1 as int) =~= names.take(k as int).push(names[k as int]));
            names.take(k as int).to_multiset_ensures();
        }
        k = k + 1;
    }
    proof {
        assert(names.take(n as int) =~= names);
    }
    out
}

} // verus!
