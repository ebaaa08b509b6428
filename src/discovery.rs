//! Choosing the display modules among the serial endpoints of the machine.
use vstd::prelude::*;

verus! {

/// USB vendor id of the display modules.
pub const VENDOR_ID: u16 = 0x32AC;

/// USB product ids that the display modules report.
pub const PRODUCT_ID_A: u16 = 0x0020;

/// USB product ids that the display modules report.
pub const PRODUCT_ID_B: u16 = 0x0021;

/// USB identity of a serial endpoint.
pub struct UsbIdentity {
    pub vid: u16,
    pub pid: u16,
    /// The device's serial number, as UTF-8 bytes, where it reports one.
    pub serial_number: Option<Vec<u8>>,
}

/// A serial endpoint as the operating system lists it.
pub struct PortListing {
    /// The endpoint's name, as UTF-8 bytes.
    pub port_name: Vec<u8>,
    /// Its USB identity, where it is a USB device.
    pub usb: Option<UsbIdentity>,
}

/// What can go wrong while driving the display.
#[derive(Clone, Copy, PartialEq, Eq, Debug, Structural)]
pub enum MatrixError {
    /// No endpoint is a display module.
    DeviceNotFound,
    /// Two modules were asked for, and only `found` are there.
    InsufficientModules { found: usize },
    /// None of the chosen endpoints could be opened.
    PortOpenFailed,
    /// Writing a command to a module failed.
    WriteFailed,
    /// Flushing a command out to a module failed.
    FlushFailed,
    /// Rediscovering or reopening the modules after repeated failures failed.
    ReconnectFailed,
}

/// `p` is a display module.
pub open spec fn is_module(p: PortListing) -> bool {
    match p.usb {
        Some(u) => u.vid == VENDOR_ID && (u.pid == PRODUCT_ID_A || u.pid == PRODUCT_ID_B),
        None => false,
    }
}

/// The key that modules are ordered by: those with a serial number first, by
/// serial number; then the others, by endpoint name.
pub open spec fn sort_key(p: PortListing) -> (bool, Seq<u8>) {
    match p.usb {
        Some(u) => match u.serial_number {
            Some(s) => (false, s@),
            None => (true, p.port_name@),
        },
        None => (true, p.port_name@),
    }
}

/// Lexicographic order on byte strings (a proper prefix comes first).
pub open spec fn lex_lt(a: Seq<u8>, b: Seq<u8>) -> bool
    decreases a.len(),
{
    if a.len() == 0 {
        b.len() > 0
    } else if b.len() == 0 {
        false
    } else if a[0] != b[0] {
        a[0] < b[0]
    } else {
        lex_lt(a.drop_first(), b.drop_first())
    }
}

/// Order on sort keys.
pub open spec fn key_lt(a: (bool, Seq<u8>), b: (bool, Seq<u8>)) -> bool {
    (!a.0 && b.0) || (a.0 == b.0 && lex_lt(a.1, b.1))
}

/// Endpoint `i` comes before endpoint `j` once the list is sorted by key,
/// ties kept in listing order.
pub open spec fn precedes(ports: Seq<PortListing>, i: int, j: int) -> bool {
    let ki = sort_key(ports[i]);
    let kj = sort_key(ports[j]);
    key_lt(ki, kj) || (ki == kj && i < j)
}

/// Endpoint `i` is the first module in sorted order among those other than
/// `skip` (`-1` skips none).
pub open spec fn is_first_module(ports: Seq<PortListing>, skip: int, i: int) -> bool {
    &&& 0 <= i < ports.len()
    &&& i != skip
    &&& is_module(ports[i])
    &&& forall|j: int| 0 <= j < ports.len() && j != i && j != skip && is_module(#[trigger] ports[j]) ==> precedes(ports, i, j)
}

/// Some endpoint other than `skip` is a module.
pub open spec fn has_module(ports: Seq<PortListing>, skip: int) -> bool {
    exists|j: int| 0 <= j < ports.len() && j != skip && is_module(#[trigger] ports[j])
}

/// Exactly one endpoint is a module.
pub open spec fn single_module(ports: Seq<PortListing>) -> bool {
    exists|i: int| 0 <= i < ports.len() && is_module(#[trigger] ports[i]) && !has_module(ports, i)
}

/// `lex_lt` is transitive.
pub proof fn lemma_lex_trans(a: Seq<u8>, b: Seq<u8>, c: Seq<u8>)
    requires
        lex_lt(a, b),
        lex_lt(b, c),
    ensures
        lex_lt(a, c),
    decreases a.len(),
{
    if a.len() > 0 && b.len() > 0 && c.len() > 0 && a[0] == b[0] && b[0] == c[0] {
        lemma_lex_trans(a.drop_first(), b.drop_first(), c.drop_first());
    }
}

/// Two byte strings that neither precedes are equal.
pub proof fn lemma_lex_total(a: Seq<u8>, b: Seq<u8>)
    requires
        !lex_lt(a, b),
        !lex_lt(b, a),
    ensures
        a == b,
    decreases a.len(),
{
    if a.len() > 0 && b.len() > 0 {
        lemma_lex_total(a.drop_first(), b.drop_first());
        assert(a =~= seq![a[0]] + a.drop_first());
        assert(b =~= seq![b[0]] + b.drop_first());
    } else {
        assert(a =~= b);
    }
}

/// `precedes` is transitive.
pub proof fn lemma_precedes_trans(ports: Seq<PortListing>, i: int, j: int, k: int)
    requires
        precedes(ports, i, j),
        precedes(ports, j, k),
    ensures
        precedes(ports, i, k),
{
    let ki = sort_key(ports[i]);
    let kj = sort_key(ports[j]);
    let kk = sort_key(ports[k]);
    if key_lt(ki, kj) && key_lt(kj, kk) {
        if ki.0 == kj.0 && kj.0 == kk.0 {
            lemma_lex_trans(ki.1, kj.1, kk.1);
        }
    }
}

/// Two endpoints of which neither has a smaller key have equal keys.
pub proof fn lemma_key_total(a: (bool, Seq<u8>), b: (bool, Seq<u8>))
    requires
        !key_lt(a, b),
        !key_lt(b, a),
    ensures
        a == b,
{
    lemma_lex_total(a.1, b.1);
}

/// Whether `a` comes before `b` in lexicographic order.
fn bytes_less(a: &Vec<u8>, b: &Vec<u8>) -> (r: bool)
    ensures
        r == lex_lt(a@, b@),
{
    let mut i: usize = 0;
    assert(a@.subrange(0, a@.len() as int) =~= a@);
    assert(b@.subrange(0, b@.len() as int) =~= b@);
    while i < a.len() && i < b.len()
        invariant
            0 <= i <= a@.len(),
            i <= b@.len(),
            lex_lt(a@, b@) == lex_lt(a@.subrange(i as int, a@.len() as int), b@.subrange(i as int, b@.len() as int)),
        decreases a@.len() - i,
    {
        let ghost sa = a@.subrange(i as int, a@.len() as int);
        let ghost sb = b@.subrange(i as int, b@.len() as int);
        if a[i] != b[i] {
            return a[i] < b[i];
        }
        assert(sa.drop_first() =~= a@.subrange(i + 1, a@.len() as int));
        assert(sb.drop_first() =~= b@.subrange(i + 1, b@.len() as int));
        i += 1;
    }
    i < b.len() && i == a.len()
}

/// The sort key of `p`, as the pair (has no serial number, bytes compared).
fn key_of(p: &PortListing) -> (r: (bool, &Vec<u8>))
    ensures
        (r.0, r.1@) == sort_key(*p),
{
    match &p.usb {
        Some(u) => match &u.serial_number {
            Some(s) => (false, s),
            None => (true, &p.port_name),
        },
        None => (true, &p.port_name),
    }
}

/// Whether `p`'s key is smaller than `q`'s.
fn key_less(p: &PortListing, q: &PortListing) -> (r: bool)
    ensures
        r == key_lt(sort_key(*p), sort_key(*q)),
{
    let kp = key_of(p);
    let kq = key_of(q);
    (!kp.0 && kq.0) || (kp.0 == kq.0 && bytes_less(kp.1, kq.1))
}

/// Whether `p` is a display module.
fn is_module_port(p: &PortListing) -> (r: bool)
    ensures
        r == is_module(*p),
{
    match &p.usb {
        Some(u) => u.vid == VENDOR_ID && (u.pid == PRODUCT_ID_A || u.pid == PRODUCT_ID_B),
        None => false,
    }
}

/// The first module in sorted order, leaving out endpoint `skip` (`None`
/// leaves out none).
fn first_module(ports: &Vec<PortListing>, skip: Option<usize>) -> (r: Option<usize>)
    ensures
        r is None <==> !has_module(ports@, if let Some(s) = skip { s as int } else { -1 }),
        r matches Some(i) ==> is_first_module(ports@, if let Some(s) = skip { s as int } else { -1 }, i as int),
{
    let ghost sk: int = if let Some(s) = skip { s as int } else { -1 };
    let mut best: Option<usize> = None;
    let mut j: usize = 0;
    while j < ports.len()
        invariant
            0 <= j <= ports@.len(),
            sk == (if let Some(s) = skip { s as int } else { -1 }),
            best is None ==> forall|m: int| 0 <= m < j && m != sk ==> !is_module(#[trigger] ports@[m]),
            best matches Some(b) ==> {
                &&& b < j
                &&& b != sk
                &&& is_module(ports@[b as int])
                &&& forall|m: int|
                    0 <= m < j && m != b && m != sk && is_module(#[trigger] ports@[m]) ==> precedes(ports@, b as int, m)
            },
        decreases ports@.len() - j,
    {
        let skipped = match skip {
            Some(s) => s == j,
            None => false,
        };
        if !skipped && is_module_port(&ports[j]) {
            match best {
                None => {
                    best = Some(j);
                },
                Some(b) => {
                    if key_less(&ports[j], &ports[b]) {
                        assert forall|m: int|
                            0 <= m < j + 1 && m != j && m != sk && is_module(#[trigger] ports@[m]) implies precedes(
                            ports@,
                            j as int,
                            m,
                        ) by {
                            if m != b {
                                lemma_precedes_trans(ports@, j as int, b as int, m);
                            }
                        }
                        best = Some(j);
                    } else {
                        proof {
                            if !key_lt(sort_key(ports@[b as int]), sort_key(ports@[j as int])) {
                                lemma_key_total(sort_key(ports@[b as int]), sort_key(ports@[j as int]));
                            }
                        }
                        assert(precedes(ports@, b as int, j as int));
                    }
                },
            }
        }
        j += 1;
    }
    best
}

/// Chooses the modules to drive, in the order of the columns they show: in
/// single mode the first module in sorted order; in dual mode the second,
/// which shows the left half, then the first, which shows the right half.
pub fn select_modules(ports: &Vec<PortListing>, dual_mode: bool) -> (r: Result<Vec<usize>, MatrixError>)
    ensures
        r == Err::<Vec<usize>, MatrixError>(MatrixError::DeviceNotFound) <==> !has_module(ports@, -1),
        r == Err::<Vec<usize>, MatrixError>(MatrixError::InsufficientModules { found: 1 }) <==> dual_mode
            && single_module(ports@),
        r matches Ok(v) ==> !dual_mode ==> v@.len() == 1 && is_first_module(ports@, -1, v@[0] as int),
        r matches Ok(v) ==> dual_mode ==> v@.len() == 2 && is_first_module(ports@, -1, v@[1] as int)
            && is_first_module(ports@, v@[1] as int, v@[0] as int),
        r is Err ==> r == Err::<Vec<usize>, MatrixError>(MatrixError::DeviceNotFound) || r == Err::<Vec<usize>, MatrixError>(
            MatrixError::InsufficientModules { found: 1 },
        ),
{
    let first = match first_module(ports, None) {
        None => {
            return Err(MatrixError::DeviceNotFound);
        },
        Some(f) => f,
    };
    let mut chosen: Vec<usize> = Vec::new();
    if !dual_mode {
        chosen.push(first);
        return Ok(chosen);
    }
    match first_module(ports, Some(first)) {
        None => {
            assert(is_module(ports@[first as int]) && !has_module(ports@, first as int));
            Err(MatrixError::InsufficientModules { found: 1 })
        },
        Some(second) => {
            chosen.push(second);
            chosen.push(first);
            proof {
                assert forall|i: int| 0 <= i < ports@.len() && is_module(#[trigger] ports@[i]) implies has_module(
                    ports@,
                    i,
                ) by {
                    if i == first {
                        assert(is_module(ports@[second as int]));
                    } else {
                        assert(is_module(ports@[first as int]));
                    }
                }
            }
            Ok(chosen)
        },
    }
}

} // verus!
