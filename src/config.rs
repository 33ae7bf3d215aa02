use vstd::prelude::*;

verus! {

/// Settings of the fieldbus master.
#[derive(Debug, Default, Clone, Copy, PartialEq, Eq, Structural)]
pub struct EthercatConfig {
    pub master_id: u32,
    pub cycle_time_us: u32,
    pub command_drop_time_us: u32,
    pub watchdog_timeout_ms: u32,
    pub mailbox_wait_time_ms: u32,
}

/// A Poulpe board: its bus position, its number of axes and its name.
#[derive(Debug, Default, Clone)]
pub struct PoulpeKind {
    pub id: u16,
    pub orbita_type: u32,
    pub name: String,
}

/// One configured slave.
#[derive(Debug, Clone)]
pub enum SlaveConfig {
    Poulpe(PoulpeKind),
    Unknown,
}

/// The whole configuration document.
#[derive(Debug, Default, Clone)]
pub struct Config {
    pub ethercat: EthercatConfig,
    pub slaves: Vec<SlaveConfig>,
}

/// Position of the first Poulpe entry with bus position `id`, if any.
pub open spec fn poulpe_index(slaves: Seq<SlaveConfig>, id: u16) -> Option<int>
    decreases slaves.len(),
{
    if slaves.len() == 0 {
        None
    } else {
        match poulpe_index(slaves.drop_last(), id) {
            Some(i) => Some(i),
            None => match slaves.last() {
                SlaveConfig::Poulpe(p) => if p.id == id {
                    Some(slaves.len() - 1)
                } else {
                    None
                },
                SlaveConfig::Unknown => None,
            },
        }
    }
}

/// The Poulpe entry of a bus position: the first one listed, if any.
pub open spec fn poulpe_of(slaves: Seq<SlaveConfig>, id: u16) -> Option<PoulpeKind> {
    match poulpe_index(slaves, id) {
        Some(i) => match slaves[i] {
            SlaveConfig::Poulpe(p) => Some(p),
            SlaveConfig::Unknown => None,
        },
        None => None,
    }
}

proof fn lemma_poulpe_index_prefix(slaves: Seq<SlaveConfig>, id: u16, k: int)
    requires
        0 <= k < slaves.len(),
    ensures
        poulpe_index(slaves.subrange(0, k + 1), id) == match poulpe_index(slaves.subrange(0, k), id) {
            Some(i) => Some(i),
            None => match slaves[k] {
                SlaveConfig::Poulpe(p) => if p.id == id {
                    Some(k)
                } else {
                    None
                },
                SlaveConfig::Unknown => None,
            },
        },
        poulpe_index(slaves.subrange(0, k + 1), id) matches Some(i) ==> 0 <= i <= k,
{
    assert(slaves.subrange(0, k + 1).drop_last() =~= slaves.subrange(0, k));
    lemma_poulpe_index_bounds(slaves.subrange(0, k), id);
}

proof fn lemma_poulpe_index_bounds(slaves: Seq<SlaveConfig>, id: u16)
    ensures
        poulpe_index(slaves, id) matches Some(i) ==> 0 <= i < slaves.len() && (
        slaves[i] matches SlaveConfig::Poulpe(p) && p.id == id),
    decreases slaves.len(),
{
    if slaves.len() > 0 {
        lemma_poulpe_index_bounds(slaves.drop_last(), id);
    }
}

/// Finds the Poulpe entry of a bus position.
pub fn find_poulpe(slaves: &Vec<SlaveConfig>, id: u16) -> (r: Option<&PoulpeKind>)
    ensures
        r matches Some(p) ==> poulpe_of(slaves@, id) == Some(*p),
        r is None ==> poulpe_of(slaves@, id) is None,
{
    let mut k: usize = 0;
    while k < slaves.len()
        invariant
            k <= slaves@.len(),
            poulpe_index(slaves@.subrange(0, k as int), id) is None,
        decreases slaves@.len() - k,
    {
        proof {
            lemma_poulpe_index_prefix(slaves@, id, k as int);
        }
        match &slaves[k] {
            SlaveConfig::Poulpe(p) => {
                if p.id == id {
                    proof {
                        assert(slaves@.subrange(0, k + 1) =~= slaves@.subrange(0, k + 1));
                    }
                    let ghost full = slaves@;
                    proof {
                        lemma_poulpe_index_extend(full, id, k as int);
                    }
                    return Some(p);
                }
            },
            SlaveConfig::Unknown => {},
        }
        k = k + 1;
    }
    proof {
        assert(slaves@.subrange(0, k as int) =~= slaves@);
    }
    None
}

proof fn lemma_poulpe_index_extend(slaves: Seq<SlaveConfig>, id: u16, k: int)
    requires
        0 <= k < slaves.len(),
        poulpe_index(slaves.subrange(0, k + 1), id) == Some(k),
    ensures
        poulpe_index(slaves, id) == Some(k),
    decreases slaves.len(),
{
    if slaves.len() == k + 1 {
        assert(slaves.subrange(0, k + 1) =~= slaves);
    } else {
        let shorter = slaves.drop_last();
        assert(shorter.subrange(0, k + 1) =~= slaves.subrange(0, k + 1));
        lemma_poulpe_index_extend(shorter, id, k);
    }
}

/// Number of axes of the board at a bus position.
pub fn get_orbita_type(slaves: &Vec<SlaveConfig>, id: u16) -> (r: Option<u32>)
    ensures
        r == (match poulpe_of(slaves@, id) {
            Some(p) => Some(p.orbita_type),
            None => None,
        }),
{
    match find_poulpe(slaves, id) {
        Some(p) => Some(p.orbita_type),
        None => None,
    }
}

/// Configured name of the board at a bus position.
pub fn get_slave_name(slaves: &Vec<SlaveConfig>, id: u16) -> (r: Option<String>)
    ensures
        r matches Some(n) ==> poulpe_of(slaves@, id) matches Some(p) && n@ == p.name@,
        r is None ==> poulpe_of(slaves@, id) is None,
{
    match find_poulpe(slaves, id) {
        Some(p) => Some(p.name.clone()),
        None => None,
    }
}

/// The configuration has a Poulpe entry for position `id` with this name.
pub open spec fn entry_named(slaves: Seq<SlaveConfig>, id: u16, name: Seq<char>) -> bool {
    match poulpe_of(slaves, id) {
        Some(p) => p.name@ == name,
        None => false,
    }
}

/// Why a bus does not match its configuration.
#[derive(Debug, Clone, Copy, PartialEq, Eq, Structural)]
pub enum ConfigError {
    /// A slave found on the bus has no Poulpe entry.
    SlaveNotInConfig(u16),
    /// A slave on the bus has another name than its entry.
    NameMismatch(u16),
    /// An entry names a position that the bus does not have.
    SlaveMissing(u16),
}

/// Checks the slaves found on the bus (`names`, by position) against the
/// configuration: every slave must have a Poulpe entry of the same name, and
/// every Poulpe entry must name a position on the bus.
pub fn check_network(slaves: &Vec<SlaveConfig>, names: &Vec<String>) -> (r: Result<(), ConfigError>)
    requires
        names@.len() <= u16::MAX + 1,
    ensures
        r is Ok <==> (forall|i: int|
            0 <= i < names@.len() ==> #[trigger] entry_named(slaves@, i as u16, names@[i]@)) && (forall|k: int|
            0 <= k < slaves@.len() ==> (#[trigger] slaves@[k] matches SlaveConfig::Poulpe(p) ==> p.id
                < names@.len())),
{
    let mut i: usize = 0;
    while i < names.len()
        invariant
            names@.len() <= u16::MAX + 1,
            i <= names@.len(),
            forall|j: int|
                0 <= j < i ==> #[trigger] entry_named(slaves@, j as u16, names@[j]@),
        decreases names@.len() - i,
    {
        match find_poulpe(slaves, i as u16) {
            None => {
                assert(!entry_named(slaves@, (i as int) as u16, names@[i as int]@));
                return Err(ConfigError::SlaveNotInConfig(i as u16));
            },
            Some(p) => {
                if p.name != names[i] {
                    assert(!entry_named(slaves@, (i as int) as u16, names@[i as int]@));
                    return Err(ConfigError::NameMismatch(i as u16));
                }
            },
        }
        i = i + 1;
    }
    let mut k: usize = 0;
    while k < slaves.len()
        invariant
            i == names@.len(),
            k <= slaves@.len(),
            forall|j: int|
                0 <= j < names@.len() ==> #[trigger] entry_named(slaves@, j as u16, names@[j]@),
            forall|j: int|
                0 <= j < k ==> (#[trigger] slaves@[j] matches SlaveConfig::Poulpe(p) ==> p.id
                    < names@.len()),
        decreases slaves@.len() - k,
    {
        match &slaves[k] {
            SlaveConfig::Poulpe(p) => {
                if p.id as usize >= names.len() {
                    assert(!(slaves@[k as int] matches SlaveConfig::Poulpe(q) ==> q.id < names@.len()));
                    return Err(ConfigError::SlaveMissing(p.id));
                }
            },
            SlaveConfig::Unknown => {},
        }
        k = k + 1;
    }
    Ok(())
}

/// The bus positions of the Poulpe entries, in the order listed.
pub open spec fn poulpe_ids(slaves: Seq<SlaveConfig>) -> Seq<u16>
    decreases slaves.len(),
{
    if slaves.len() == 0 {
        seq![]
    } else {
        let prev = poulpe_ids(slaves.drop_last());
        match slaves.last() {
            SlaveConfig::Poulpe(p) => prev.push(p.id),
            SlaveConfig::Unknown => prev,
        }
    }
}

/// Lists the bus positions of the configured Poulpe boards.
pub fn get_slave_ids(slaves: &Vec<SlaveConfig>) -> (r: Vec<u16>)
    ensures
        r@ == poulpe_ids(slaves@),
{
    let mut ids: Vec<u16> = Vec::new();
    let mut k: usize = 0;
    while k < slaves.len()
        invariant
            k <= slaves@.len(),
            ids@ == poulpe_ids(slaves@.subrange(0, k as int)),
        decreases slaves@.len() - k,
    {
        proof {
            let next = slaves@.subrange(0, k + 1);
            assert(next.drop_last() =~= slaves@.subrange(0, k as int));
        }
        match &slaves[k] {
            SlaveConfig::Poulpe(p) => ids.push(p.id),
            SlaveConfig::Unknown => {},
        }
        k = k + 1;
    }
    proof {
        assert(slaves@.subrange(0, k as int) =~= slaves@);
    }
    ids
}

/// The bus position of the first Poulpe entry with this name.
pub fn get_slave_id(slaves: &Vec<SlaveConfig>, name: &String) -> (r: Option<u16>)
    ensures
        r matches Some(id) ==> exists|k: int|
            0 <= k < slaves@.len() && (#[trigger] slaves@[k] matches SlaveConfig::Poulpe(p) && p.id == id
                && p.name@ == name@) && forall|j: int|
                0 <= j < k ==> !(#[trigger] slaves@[j] matches SlaveConfig::Poulpe(q) && q.name@ == name@),
        r is None ==> forall|k: int|
            0 <= k < slaves@.len() ==> !(#[trigger] slaves@[k] matches SlaveConfig::Poulpe(p) && p.name@
                == name@),
{
    let mut k: usize = 0;
    while k < slaves.len()
        invariant
            k <= slaves@.len(),
            forall|j: int|
                0 <= j < k ==> !(#[trigger] slaves@[j] matches SlaveConfig::Poulpe(q) && q.name@ == name@),
        decreases slaves@.len() - k,
    {
        match &slaves[k] {
            SlaveConfig::Poulpe(p) => {
                if p.name == *name {
                    return Some(p.id);
                }
            },
            SlaveConfig::Unknown => {},
        }
        k = k + 1;
    }
    None
}

} // verus!
