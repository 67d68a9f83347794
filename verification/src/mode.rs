use vstd::prelude::*;

verus! {

/// The kinds of entry that a mode can stand for.
#[derive(Clone, Copy, Debug, PartialEq, Eq, Structural)]
pub enum ModeKind {
    BlockDevice,
    CharDevice,
    Dir,
    Fifo,
    File,
    Socket,
    Symlink,
}

/// The set of kinds that a mode tests positive for.
#[derive(Clone, Copy, Debug, PartialEq, Eq, Structural)]
pub struct ModeKinds {
    pub block_device: bool,
    pub char_device: bool,
    pub dir: bool,
    pub fifo: bool,
    pub file: bool,
    pub socket: bool,
    pub symlink: bool,
}

/// A packed integer that holds an entry's type and its permissions.
#[derive(Clone, Copy, Debug)]
pub struct UnixMode(u32);

impl View for UnixMode {
    type V = u32;

    closed spec fn view(&self) -> u32 {
        self.0
    }
}

/// The four bits of a mode that hold the entry's type.
pub open spec fn type_bits(mode: u32) -> u32 {
    (mode >> 12) & 15
}

/// The value of the type bits that stands for each kind.
pub open spec fn type_code(kind: ModeKind) -> u32 {
    match kind {
        ModeKind::Fifo => 1,
        ModeKind::CharDevice => 2,
        ModeKind::Dir => 4,
        ModeKind::BlockDevice => 6,
        ModeKind::File => 8,
        ModeKind::Symlink => 10,
        ModeKind::Socket => 12,
    }
}

/// Whether the mode tests positive for the kind.
pub open spec fn has_kind(mode: u32, kind: ModeKind) -> bool {
    type_bits(mode) == type_code(kind)
}

/// The set of kinds that the mode tests positive for.
pub open spec fn kinds_of(mode: u32) -> ModeKinds {
    ModeKinds {
        block_device: has_kind(mode, ModeKind::BlockDevice),
        char_device: has_kind(mode, ModeKind::CharDevice),
        dir: has_kind(mode, ModeKind::Dir),
        fifo: has_kind(mode, ModeKind::Fifo),
        file: has_kind(mode, ModeKind::File),
        socket: has_kind(mode, ModeKind::Socket),
        symlink: has_kind(mode, ModeKind::Symlink),
    }
}

/// The text that `unix_mode::to_string` gives for a mode.
pub uninterp spec fn mode_text(mode: u32) -> Seq<char>;

/// `unix_mode::is_block_device` holds exactly where the type bits are 6.
pub assume_specification[ unix_mode::is_block_device ](mode: u32) -> (r: bool)
    ensures
        r == has_kind(mode, ModeKind::BlockDevice),
;

/// `unix_mode::is_char_device` holds exactly where the type bits are 2.
pub assume_specification[ unix_mode::is_char_device ](mode: u32) -> (r: bool)
    ensures
        r == has_kind(mode, ModeKind::CharDevice),
;

/// `unix_mode::is_dir` holds exactly where the type bits are 4.
pub assume_specification[ unix_mode::is_dir ](mode: u32) -> (r: bool)
    ensures
        r == has_kind(mode, ModeKind::Dir),
;

/// `unix_mode::is_fifo` holds exactly where the type bits are 1.
pub assume_specification[ unix_mode::is_fifo ](mode: u32) -> (r: bool)
    ensures
        r == has_kind(mode, ModeKind::Fifo),
;

/// `unix_mode::is_file` holds exactly where the type bits are 8.
pub assume_specification[ unix_mode::is_file ](mode: u32) -> (r: bool)
    ensures
        r == has_kind(mode, ModeKind::File),
;

/// `unix_mode::is_socket` holds exactly where the type bits are 12.
pub assume_specification[ unix_mode::is_socket ](mode: u32) -> (r: bool)
    ensures
        r == has_kind(mode, ModeKind::Socket),
;

/// `unix_mode::is_symlink` holds exactly where the type bits are 10.
pub assume_specification[ unix_mode::is_symlink ](mode: u32) -> (r: bool)
    ensures
        r == has_kind(mode, ModeKind::Symlink),
;

/// Calls `unix_mode::to_string`, whose result is a function of the mode
/// alone: the ten characters that a long listing shows for it.
#[verifier::external_body]
fn mode_to_string(mode: u32) -> (r: String)
    ensures
        r@ == mode_text(mode),
{
    unix_mode::to_string(mode)
}

impl ModeKinds {
    /// The set without any kind.
    pub fn empty() -> (r: ModeKinds)
        ensures
            r.count() == 0,
            forall|k: ModeKind| !r.contains(k),
    {
        ModeKinds {
            block_device: false,
            char_device: false,
            dir: false,
            fifo: false,
            file: false,
            socket: false,
            symlink: false,
        }
    }

    /// Whether the kind is in the set.
    pub open spec fn contains(&self, kind: ModeKind) -> bool {
        match kind {
            ModeKind::BlockDevice => self.block_device,
            ModeKind::CharDevice => self.char_device,
            ModeKind::Dir => self.dir,
            ModeKind::Fifo => self.fifo,
            ModeKind::File => self.file,
            ModeKind::Socket => self.socket,
            ModeKind::Symlink => self.symlink,
        }
    }

    /// How many kinds are in the set.
    pub open spec fn count(&self) -> int {
        (if self.block_device { 1int } else { 0 })
            + (if self.char_device { 1int } else { 0 })
            + (if self.dir { 1int } else { 0 })
            + (if self.fifo { 1int } else { 0 })
            + (if self.file { 1int } else { 0 })
            + (if self.socket { 1int } else { 0 })
            + (if self.symlink { 1int } else { 0 })
    }

    /// The set holds the given kind and no other.
    pub open spec fn is_only(&self, kind: ModeKind) -> bool {
        self.contains(kind) && self.count() == 1
    }

    /// Whether the kind is in the set.
    pub fn has(&self, kind: ModeKind) -> (r: bool)
        ensures
            r == self.contains(kind),
    {
        match kind {
            ModeKind::BlockDevice => self.block_device,
            ModeKind::CharDevice => self.char_device,
            ModeKind::Dir => self.dir,
            ModeKind::Fifo => self.fifo,
            ModeKind::File => self.file,
            ModeKind::Socket => self.socket,
            ModeKind::Symlink => self.symlink,
        }
    }

    /// Whether the set holds the given kind and no other.
    pub fn is_exactly(&self, kind: ModeKind) -> (r: bool)
        ensures
            r == self.is_only(kind),
    {
        let mut n: u8 = 0;
        if self.block_device {
            n += 1;
        }
        if self.char_device {
            n += 1;
        }
        if self.dir {
            n += 1;
        }
        if self.fifo {
            n += 1;
        }
        if self.file {
            n += 1;
        }
        if self.socket {
            n += 1;
        }
        if self.symlink {
            n += 1;
        }
        n == 1 && self.has(kind)
    }
}

impl UnixMode {
    /// Takes the packed integer as it is.
    pub fn new(value: u32) -> (r: UnixMode)
        ensures
            r@ == value,
    {
        UnixMode(value)
    }

    /// The packed integer.
    pub fn to_u32(&self) -> (r: u32)
        ensures
            r == self@,
    {
        self.0
    }

    pub fn is_block_device(&self) -> (r: bool)
        ensures
            r == has_kind(self@, ModeKind::BlockDevice),
    {
        unix_mode::is_block_device(self.0)
    }

    pub fn is_char_device(&self) -> (r: bool)
        ensures
            r == has_kind(self@, ModeKind::CharDevice),
    {
        unix_mode::is_char_device(self.0)
    }

    pub fn is_dir(&self) -> (r: bool)
        ensures
            r == has_kind(self@, ModeKind::Dir),
    {
        unix_mode::is_dir(self.0)
    }

    pub fn is_fifo(&self) -> (r: bool)
        ensures
            r == has_kind(self@, ModeKind::Fifo),
    {
        unix_mode::is_fifo(self.0)
    }

    pub fn is_file(&self) -> (r: bool)
        ensures
            r == has_kind(self@, ModeKind::File),
    {
        unix_mode::is_file(self.0)
    }

    pub fn is_socket(&self) -> (r: bool)
        ensures
            r == has_kind(self@, ModeKind::Socket),
    {
        unix_mode::is_socket(self.0)
    }

    pub fn is_symlink(&self) -> (r: bool)
        ensures
            r == has_kind(self@, ModeKind::Symlink),
    {
        unix_mode::is_symlink(self.0)
    }

    /// Every kind that the mode tests positive for. Each kind is tested by
    /// itself.
    pub fn kind(&self) -> (r: ModeKinds)
        ensures
            r == kinds_of(self@),
            r.count() <= 1,
    {
        let mut result = ModeKinds::empty();
        if self.is_block_device() {
            result.block_device = true;
        }
        if self.is_char_device() {
            result.char_device = true;
        }
        if self.is_dir() {
            result.dir = true;
        }
        if self.is_fifo() {
            result.fifo = true;
        }
        if self.is_file() {
            result.file = true;
        }
        if self.is_socket() {
            result.socket = true;
        }
        if self.is_symlink() {
            result.symlink = true;
        }
        result
    }

    /// The nine permission bits.
    pub fn permissions(&self) -> (r: u32)
        ensures
            r == self@ & 511,
            r <= 511,
    {
        let v: u32 = self.0;
        assert(v & 511 <= 511) by (bit_vector);
        v & 511
    }

    /// The mode as a long listing shows it.
    pub fn to_string(&self) -> (r: String)
        ensures
            r@ == mode_text(self@),
    {
        mode_to_string(self.0)
    }
}

} // verus!
