//! The universe: the directory layout that holds everything of a shell.
//! The library computes the layout's paths and judges what was found on
//! disk; the disk itself is read and written by the caller.

use vstd::prelude::*;
use crate::shell::ShellId;
use crate::text::has_suffix;

verus! {

/// The folder on disk that holds everything for a shell.
#[derive(Debug, Clone)]
pub struct Universe {
    pub path: String,
    pub shell_id: ShellId,
    pub rooms_dir: String,
    pub tiles_dir: String,
    pub ensigns_dir: String,
    pub ports_dir: String,
    pub config_path: String,
    pub state_path: String,
}

/// `dir/name`.
pub open spec fn join(dir: Seq<char>, name: Seq<char>) -> Seq<char> {
    dir + "/"@ + name
}

/// The names under which `Universe::validate_presence` reports the
/// required directories, in order.
pub open spec fn required_dir_names() -> Seq<Seq<char>> {
    seq!["root"@, "rooms"@, "tiles"@, "ensigns"@, "ports"@]
}

/// The report line for a missing directory.
pub open spec fn missing_dir_message(name: Seq<char>, dir: Seq<char>) -> Seq<char> {
    "missing "@ + name + " directory: "@ + dir
}

/// The report lines for the first `n` required directories, in order, one
/// for each that is not present.
pub open spec fn missing_dir_messages(
    dirs: Seq<Seq<char>>,
    present: Seq<bool>,
    n: nat,
) -> Seq<Seq<char>>
    decreases n,
{
    if n == 0 {
        Seq::empty()
    } else {
        let prev = missing_dir_messages(dirs, present, (n - 1) as nat);
        if present[n - 1] {
            prev
        } else {
            prev.push(missing_dir_message(required_dir_names()[n - 1], dirs[n - 1]))
        }
    }
}

/// A file name with every trailing `.json` removed.
pub open spec fn without_json_suffixes(name: Seq<char>) -> Seq<char>
    decreases name.len(),
{
    if name.len() >= 5 && name.subrange(name.len() - 5, name.len() as int) == ".json"@ {
        without_json_suffixes(name.subrange(0, name.len() - 5))
    } else {
        name
    }
}

impl Universe {
    /// The required directories: the root, then rooms, tiles, ensigns and
    /// ports.
    pub open spec fn spec_required_dirs(&self) -> Seq<Seq<char>> {
        seq![self.path@, self.rooms_dir@, self.tiles_dir@, self.ensigns_dir@, self.ports_dir@]
    }

    pub fn new(path: &str, shell_id: &ShellId) -> (u: Self)
        ensures
            u.path@ == path@,
            u.shell_id == *shell_id,
            u.rooms_dir@ == path@ + "/rooms"@,
            u.tiles_dir@ == path@ + "/tiles"@,
            u.ensigns_dir@ == path@ + "/ensigns"@,
            u.ports_dir@ == path@ + "/ports"@,
            u.config_path@ == path@ + "/shell.json"@,
            u.state_path@ == path@ + "/state.json"@,
    {
        let base = path.to_owned();
        Universe {
            rooms_dir: base.clone().concat("/rooms"),
            tiles_dir: base.clone().concat("/tiles"),
            ensigns_dir: base.clone().concat("/ensigns"),
            ports_dir: base.clone().concat("/ports"),
            config_path: base.clone().concat("/shell.json"),
            state_path: base.clone().concat("/state.json"),
            path: base,
            shell_id: shell_id.duplicate(),
        }
    }

    /// A copy of this universe.
    pub fn duplicate(&self) -> (u: Self)
        ensures
            u == *self,
    {
        Universe {
            path: self.path.clone(),
            shell_id: self.shell_id.duplicate(),
            rooms_dir: self.rooms_dir.clone(),
            tiles_dir: self.tiles_dir.clone(),
            ensigns_dir: self.ensigns_dir.clone(),
            ports_dir: self.ports_dir.clone(),
            config_path: self.config_path.clone(),
            state_path: self.state_path.clone(),
        }
    }

    pub fn room_path(&self, room_id: &str) -> (p: String)
        ensures
            p@ == join(self.rooms_dir@, room_id@),
    {
        self.rooms_dir.clone().concat("/").concat(room_id)
    }

    pub fn tile_path(&self, tile_id: &str) -> (p: String)
        ensures
            p@ == join(self.tiles_dir@, tile_id@) + ".json"@,
    {
        self.tiles_dir.clone().concat("/").concat(tile_id).concat(".json")
    }

    pub fn ensign_path(&self, ensign_id: &str) -> (p: String)
        ensures
            p@ == join(self.ensigns_dir@, ensign_id@),
    {
        self.ensigns_dir.clone().concat("/").concat(ensign_id)
    }

    pub fn port_path(&self, port_id: &str) -> (p: String)
        ensures
            p@ == join(self.ports_dir@, port_id@) + ".json"@,
    {
        self.ports_dir.clone().concat("/").concat(port_id).concat(".json")
    }

    /// The directories that creating a universe makes and validating one
    /// checks: the root, then rooms, tiles, ensigns and ports.
    pub fn required_dirs(&self) -> (v: Vec<String>)
        ensures
            v@.len() == 5,
            forall|i: int| 0 <= i < 5 ==> #[trigger] v@[i]@ == self.spec_required_dirs()[i],
    {
        let mut v: Vec<String> = Vec::new();
        v.push(self.path.clone());
        v.push(self.rooms_dir.clone());
        v.push(self.tiles_dir.clone());
        v.push(self.ensigns_dir.clone());
        v.push(self.ports_dir.clone());
        v
    }

    /// The verdict on a universe given which required directories exist,
    /// `present[i]` telling of the `i`-th of `required_dirs`: `Ok` when all
    /// five exist, else one report line per missing directory, in order.
    pub fn validate_presence(&self, present: &[bool]) -> (r: Result<(), Vec<String>>)
        requires
            present@.len() == 5,
        ensures
            (forall|i: int| 0 <= i < 5 ==> present@[i]) ==> r is Ok,
            (exists|i: int| 0 <= i < 5 && !present@[i]) ==> r is Err,
            r matches Err(errs) ==> errs@.map_values(|s: String| s@) == missing_dir_messages(
                self.spec_required_dirs(),
                present@,
                5,
            ),
    {
        proof {
            reveal_strlit("root");
            reveal_strlit("rooms");
            reveal_strlit("tiles");
            reveal_strlit("ensigns");
            reveal_strlit("ports");
        }
        let dirs = self.required_dirs();
        let mut names: Vec<&str> = Vec::new();
        names.push("root");
        names.push("rooms");
        names.push("tiles");
        names.push("ensigns");
        names.push("ports");
        assert(names@.map_values(|s: &str| s@) =~= required_dir_names());
        let mut errors: Vec<String> = Vec::new();
        let mut i: usize = 0;
        while i < 5
            invariant
                i <= 5,
                present@.len() == 5,
                dirs@.len() == 5,
                names@.len() == 5,
                forall|j: int| 0 <= j < 5 ==> #[trigger] dirs@[j]@ == self.spec_required_dirs()[j],
                forall|j: int| 0 <= j < 5 ==> #[trigger] names@[j]@ == required_dir_names()[j],
                errors@.map_values(|s: String| s@) == missing_dir_messages(
                    self.spec_required_dirs(),
                    present@,
                    i as nat,
                ),
                errors@.len() == 0 <==> (forall|j: int| 0 <= j < i ==> present@[j]),
            decreases 5 - i,
        {
            if !present[i] {
                let msg = String::from_str("missing ").concat(names[i]).concat(
                    " directory: ",
                ).concat(dirs[i].as_str());
                assert(names@[i as int]@ == required_dir_names()[i as int]);
                errors.push(msg);
                assert(errors@.map_values(|s: String| s@) =~= missing_dir_messages(
                    self.spec_required_dirs(),
                    present@,
                    i as nat,
                ).push(msg@));
            }
            i = i + 1;
        }
        if errors.len() == 0 {
            Ok(())
        } else {
            Err(errors)
        }
    }

    /// The entry name under which a file of the ports directory is listed:
    /// the file name with every trailing `.json` removed.
    pub fn json_entry_name(file_name: &str) -> (r: String)
        ensures
            r@ == without_json_suffixes(file_name@),
    {
        proof {
            reveal_strlit(".json");
        }
        let mut cur: String = file_name.to_owned();
        loop
            invariant
                without_json_suffixes(cur@) == without_json_suffixes(file_name@),
            decreases cur@.len(),
        {
            proof {
                reveal_strlit(".json");
            }
            if has_suffix(cur.as_str(), ".json") {
                let n = cur.as_str().unicode_len();
                let shorter = cur.as_str().substring_char(0, n - 5).to_owned();
                cur = shorter;
            } else {
                return cur;
            }
        }
    }
}

} // verus!
