use vstd::prelude::*;

verus! {

/// Width in bytes of one directory entry record.
pub const DIRENT_SZ: usize = 32;

/// Size in bytes of one data block.
pub const BLOCK_SZ: usize = 512;

/// How many on-disk inode records share one block.
pub const INODES_PER_BLOCK: u32 = 4;

/// Width in bytes of one on-disk inode record.
pub const DISK_INODE_SZ: usize = 128;

/// Whether an inode holds a regular file or a directory.
#[derive(Copy, Clone, PartialEq, Eq, Structural, Debug)]
pub enum DiskInodeType {
    File,
    Directory,
}

/// One directory entry: a name and the id of the inode it refers to.
pub struct DirEntry {
    pub name: String,
    pub inode_id: u32,
}

/// What a directory entry says: its name and its inode id.
pub open spec fn entry_view(e: DirEntry) -> (Seq<char>, u32) {
    (e.name@, e.inode_id)
}

/// A directory's content as (name, inode id) pairs, in storage order.
pub open spec fn entries_view(s: Seq<DirEntry>) -> Seq<(Seq<char>, u32)> {
    s.map_values(|e: DirEntry| entry_view(e))
}

/// The inode id of the first entry named `name`, if any.
pub open spec fn lookup(es: Seq<(Seq<char>, u32)>, name: Seq<char>) -> Option<u32> {
    if exists|i: int| is_first_match(es, name, i) {
        Some(es[choose|i: int| is_first_match(es, name, i)].1)
    } else {
        None
    }
}

/// `i` is the position of the first entry named `name`.
pub open spec fn is_first_match(es: Seq<(Seq<char>, u32)>, name: Seq<char>, i: int) -> bool {
    &&& 0 <= i < es.len()
    &&& es[i].0 == name
    &&& forall|k: int| 0 <= k < i ==> es[k].0 != name
}

/// The entries whose name differs from `name`, in their order.
pub open spec fn without_name(es: Seq<(Seq<char>, u32)>, name: Seq<char>) -> Seq<(Seq<char>, u32)> {
    es.filter(|e: (Seq<char>, u32)| e.0 != name)
}

/// The names of the entries, in storage order.
pub open spec fn names_of(es: Seq<(Seq<char>, u32)>) -> Seq<Seq<char>> {
    es.map_values(|e: (Seq<char>, u32)| e.0)
}

/// `data` after writing `b` at `offset`: it grows to cover the write, and a gap
/// between its old end and `offset` reads as zero bytes.
pub open spec fn written(data: Seq<u8>, offset: int, b: Seq<u8>) -> Seq<u8> {
    let len = if offset + b.len() > data.len() {
        offset + b.len()
    } else {
        data.len() as int
    };
    Seq::new(
        len as nat,
        |i: int|
            if offset <= i < offset + b.len() {
                b[i - offset]
            } else if i < data.len() {
                data[i]
            } else {
                0u8
            },
    )
}

/// How many bytes a read of `want` bytes at `offset` copies out of content of
/// length `size`.
pub open spec fn read_len(size: int, offset: int, want: int) -> int {
    if offset >= size {
        0
    } else if size - offset < want {
        size - offset
    } else {
        want
    }
}

/// At most one position can hold the first entry named `name`.
pub proof fn lemma_first_match_unique(es: Seq<(Seq<char>, u32)>, name: Seq<char>, i: int, j: int)
    requires
        is_first_match(es, name, i),
        is_first_match(es, name, j),
    ensures
        i == j,
{
}

/// Appending one entry to a sequence filters as the sequence does, plus that entry
/// where its name differs.
pub proof fn lemma_without_name_push(
    es: Seq<(Seq<char>, u32)>,
    e: (Seq<char>, u32),
    name: Seq<char>,
)
    ensures
        without_name(es.push(e), name) == if e.0 != name {
            without_name(es, name).push(e)
        } else {
            without_name(es, name)
        },
{
    reveal(Seq::filter);
    assert(es.push(e).drop_last() =~= es);
}

/// How many data blocks hold `size` bytes.
pub open spec fn blocks_for(size: int) -> int {
    (size + BLOCK_SZ - 1) / (BLOCK_SZ as int)
}

/// How many more data blocks growing from `size` to `new_size` bytes takes; none
/// when `new_size` is not larger.
pub open spec fn growth(size: int, new_size: int) -> int {
    if new_size > size {
        blocks_for(new_size) - blocks_for(size)
    } else {
        0
    }
}

/// The `count` blocks that taking blocks one at a time off the end of the free
/// list `free` hands out, in the order they are taken.
pub open spec fn taken(free: Seq<u32>, count: int) -> Seq<u32> {
    Seq::new(count as nat, |i: int| free[free.len() - 1 - i])
}

/// The free list `free` once `count` blocks are taken off its end.
pub open spec fn after_taking(free: Seq<u32>, count: int) -> Seq<u32> {
    free.subrange(0, free.len() - count)
}

/// More bytes never take fewer blocks.
pub proof fn lemma_blocks_monotone(a: int, b: int)
    requires
        0 <= a <= b,
    ensures
        0 <= blocks_for(a) <= blocks_for(b),
{
}

/// An on-disk inode record: its type, its link count and its content.
pub struct DiskInode {
    pub type_: DiskInodeType,
    pub link: u32,
    /// the bytes of a regular file
    pub data: Vec<u8>,
    /// the entries of a directory, in the order they were appended
    pub entries: Vec<DirEntry>,
    /// the data blocks that hold the content, in order
    pub blocks: Vec<u32>,
}

impl DiskInode {
    /// A fresh record of the given type, with one link and no content.
    pub fn initialize(type_: DiskInodeType) -> (r: DiskInode)
        ensures
            r.type_ == type_,
            r.link == 1,
            r.data@.len() == 0,
            r.entries@.len() == 0,
            r.blocks@.len() == 0,
    {
        DiskInode { type_, link: 1, data: Vec::new(), entries: Vec::new(), blocks: Vec::new() }
    }

    /// A record that no inode uses yet.
    fn unused() -> (r: DiskInode)
        ensures
            r.type_ == DiskInodeType::File,
            r.link == 0,
            r.data@.len() == 0,
            r.entries@.len() == 0,
            r.blocks@.len() == 0,
    {
        DiskInode {
            type_: DiskInodeType::File,
            link: 0,
            data: Vec::new(),
            entries: Vec::new(),
            blocks: Vec::new(),
        }
    }

    /// The record's logical size in bytes.
    pub open spec fn size_spec(&self) -> int {
        match self.type_ {
            DiskInodeType::File => self.data@.len() as int,
            DiskInodeType::Directory => self.entries@.len() * DIRENT_SZ,
        }
    }

    /// The sizes fit the record's 32-bit size field, and the record holds just as
    /// many data blocks as its size needs.
    pub open spec fn wf(&self) -> bool {
        &&& self.data@.len() <= u32::MAX
        &&& self.entries@.len() * DIRENT_SZ <= u32::MAX
        &&& self.blocks@.len() == blocks_for(self.size_spec())
    }

    /// Well formed, and every entry refers to an id below `n`.
    pub open spec fn wf_within(&self, n: nat) -> bool {
        &&& self.wf()
        &&& forall|k: int| 0 <= k < self.entries@.len() ==> self.entries@[k].inode_id < n
    }

    /// Whether the record holds a regular file.
    pub fn is_file(&self) -> (r: bool)
        ensures
            r == (self.type_ == DiskInodeType::File),
    {
        self.type_ == DiskInodeType::File
    }

    /// Whether the record holds a directory.
    pub fn is_dir(&self) -> (r: bool)
        ensures
            r == (self.type_ == DiskInodeType::Directory),
    {
        self.type_ == DiskInodeType::Directory
    }

    /// How many more data blocks the record needs to hold `new_size` bytes.
    pub fn blocks_num_needed(&self, new_size: u32) -> (r: u32)
        requires
            self.wf(),
        ensures
            r == growth(self.size_spec(), new_size as int),
    {
        let size = self.size();
        if new_size <= size {
            return 0;
        }
        proof {
            lemma_blocks_monotone(size as int, new_size as int);
        }
        let a: u64 = (new_size as u64 + BLOCK_SZ as u64 - 1) / BLOCK_SZ as u64;
        let b: u64 = (size as u64 + BLOCK_SZ as u64 - 1) / BLOCK_SZ as u64;
        (a - b) as u32
    }

    /// Add `new_blocks`, in order, after the blocks the record holds.
    fn append_blocks(&mut self, new_blocks: Vec<u32>)
        ensures
            *final(self) == (DiskInode { blocks: final(self).blocks, ..*old(self) }),
            final(self).blocks@ == old(self).blocks@ + new_blocks@,
    {
        let nb = new_blocks.len();
        let mut j: usize = 0;
        while j < nb
            invariant
                nb == new_blocks@.len(),
                0 <= j <= nb,
                *self == (DiskInode { blocks: self.blocks, ..*old(self) }),
                self.blocks@ == old(self).blocks@ + new_blocks@.subrange(0, j as int),
            decreases nb - j,
        {
            self.blocks.push(new_blocks[j]);
            j = j + 1;
            assert(self.blocks@ =~= old(self).blocks@ + new_blocks@.subrange(0, j as int));
        }
        assert(new_blocks@.subrange(0, nb as int) =~= new_blocks@);
    }

    /// Grow the content of a file record with zero bytes up to `new_size`, taking
    /// `new_blocks` to hold it; a smaller `new_size` leaves the content as it is.
    pub fn increase_size(&mut self, new_size: u32, new_blocks: Vec<u32>)
        requires
            old(self).wf(),
            old(self).type_ == DiskInodeType::File,
            new_blocks@.len() == growth(old(self).data@.len() as int, new_size as int),
        ensures
            final(self).wf(),
            final(self).type_ == old(self).type_,
            final(self).link == old(self).link,
            final(self).entries@ == old(self).entries@,
            final(self).blocks@ == old(self).blocks@ + new_blocks@,
            final(self).data@ == if new_size <= old(self).data@.len() {
                old(self).data@
            } else {
                old(self).data@ + Seq::new((new_size - old(self).data@.len()) as nat, |i: int| 0u8)
            },
    {
        let ghost d0 = self.data@;
        self.append_blocks(new_blocks);
        let target = new_size as usize;
        proof {
            if new_size as int > d0.len() {
                lemma_blocks_monotone(d0.len() as int, new_size as int);
            }
        }
        while self.data.len() < target
            invariant
                self.blocks@ == old(self).blocks@ + new_blocks@,
                self.type_ == old(self).type_,
                self.link == old(self).link,
                self.entries@ == old(self).entries@,
                self.entries@.len() * DIRENT_SZ <= u32::MAX,
                d0 == old(self).data@,
                d0.len() <= self.data@.len(),
                d0.len() < target ==> self.data@.len() <= target,
                d0.len() >= target ==> self.data@ == d0,
                forall|k: int| 0 <= k < d0.len() ==> self.data@[k] == d0[k],
                forall|k: int| d0.len() <= k < self.data@.len() ==> self.data@[k] == 0u8,
            decreases target - self.data@.len(),
        {
            self.data.push(0u8);
        }
        proof {
            if (new_size as int) > d0.len() {
                assert(self.data@ =~= d0 + Seq::new((new_size - d0.len()) as nat, |i: int| 0u8));
            }
        }
    }

    /// Copy the content at `offset` into the front of `buf`, as much as there is of
    /// it and as `buf` can hold; return how many bytes were copied.
    pub fn read_at(&self, offset: usize, buf: &mut Vec<u8>) -> (r: usize)
        ensures
            r == read_len(self.data@.len() as int, offset as int, old(buf)@.len() as int),
            final(buf)@.len() == old(buf)@.len(),
            forall|k: int| 0 <= k < r ==> final(buf)@[k] == self.data@[offset + k],
            forall|k: int| r <= k < old(buf)@.len() ==> final(buf)@[k] == old(buf)@[k],
    {
        let size = self.data.len();
        let n: usize = if offset >= size {
            0
        } else if size - offset < buf.len() {
            size - offset
        } else {
            buf.len()
        };
        let mut i: usize = 0;
        while i < n
            invariant
                n == read_len(size as int, offset as int, old(buf)@.len() as int),
                size == self.data@.len(),
                0 <= i <= n,
                buf@.len() == old(buf)@.len(),
                forall|k: int| 0 <= k < i ==> buf@[k] == self.data@[offset + k],
                forall|k: int| i <= k < old(buf)@.len() ==> buf@[k] == old(buf)@[k],
            decreases n - i,
        {
            buf.set(i, self.data[offset + i]);
            i = i + 1;
        }
        n
    }

    /// Write `buf` at `offset` into a file record, growing it first, with the
    /// blocks `new_blocks`, so that the write fits; return how many bytes were written.
    pub fn write_at(&mut self, offset: usize, buf: &[u8], new_blocks: Vec<u32>) -> (r: usize)
        requires
            old(self).wf(),
            old(self).type_ == DiskInodeType::File,
            offset + buf@.len() <= u32::MAX,
            new_blocks@.len() == growth(old(self).data@.len() as int, offset + buf@.len()),
        ensures
            final(self).wf(),
            r == buf@.len(),
            final(self).blocks@ == old(self).blocks@ + new_blocks@,
            final(self).type_ == old(self).type_,
            final(self).link == old(self).link,
            final(self).entries@ == old(self).entries@,
            final(self).data@ == written(old(self).data@, offset as int, buf@),
    {
        let ghost d0 = self.data@;
        let end = offset + buf.len();
        self.increase_size(end as u32, new_blocks);
        let ghost d1 = self.data@;
        let ghost b1 = self.blocks@;
        let n = buf.len();
        let mut i: usize = 0;
        while i < n
            invariant
                n == buf@.len(),
                offset + n <= u32::MAX,
                0 <= i <= n,
                self.type_ == old(self).type_,
                self.link == old(self).link,
                self.entries@ == old(self).entries@,
                self.entries@.len() * DIRENT_SZ <= u32::MAX,
                self.blocks@ == b1,
                b1.len() == blocks_for(d1.len() as int),
                d0 == old(self).data@,
                self.data@.len() == d1.len(),
                d1.len() == written(d0, offset as int, buf@).len(),
                forall|k: int|
                    0 <= k < d1.len() ==> self.data@[k] == if offset <= k < offset + i {
                        buf@[k - offset]
                    } else if k < d0.len() {
                        d0[k]
                    } else {
                        0u8
                    },
            decreases n - i,
        {
            self.data.set(offset + i, buf[i]);
            i = i + 1;
        }
        assert(self.data@ =~= written(d0, offset as int, buf@));
        n
    }

    /// Append the entry `e` to a directory record, taking `new_blocks` to hold it.
    pub fn append_entry(&mut self, e: DirEntry, new_blocks: Vec<u32>)
        requires
            old(self).wf(),
            old(self).type_ == DiskInodeType::Directory,
            (old(self).entries@.len() + 1) * DIRENT_SZ <= u32::MAX,
            new_blocks@.len() == growth(
                old(self).entries@.len() * DIRENT_SZ,
                (old(self).entries@.len() + 1) * DIRENT_SZ,
            ),
        ensures
            final(self).wf(),
            final(self).type_ == old(self).type_,
            final(self).link == old(self).link,
            final(self).data@ == old(self).data@,
            final(self).entries@ == old(self).entries@.push(e),
            final(self).blocks@ == old(self).blocks@ + new_blocks@,
    {
        self.append_blocks(new_blocks);
        self.entries.push(e);
    }

    /// Drop all content, so that the record's size becomes zero, and hand back the
    /// data blocks that held it.
    pub fn clear_size(&mut self) -> (r: Vec<u32>)
        requires
            old(self).wf(),
        ensures
            final(self).wf(),
            r@ == old(self).blocks@,
            r@.len() == blocks_for(old(self).size_spec()),
            final(self).type_ == old(self).type_,
            final(self).link == old(self).link,
            final(self).data@.len() == 0,
            final(self).entries@.len() == 0,
    {
        self.data = Vec::new();
        self.entries = Vec::new();
        let mut freed: Vec<u32> = Vec::new();
        std::mem::swap(&mut freed, &mut self.blocks);
        freed
    }

    /// The record's logical size in bytes.
    pub fn size(&self) -> (r: u32)
        requires
            self.wf(),
        ensures
            r == self.size_spec(),
    {
        if self.type_ == DiskInodeType::File {
            self.data.len() as u32
        } else {
            (self.entries.len() * DIRENT_SZ) as u32
        }
    }
}

/// The filesystem-wide state: the inode records, indexed by inode id, the
/// bitmap of inode ids in use, and the free data blocks.
pub struct EasyFileSystem {
    /// the first block of the inode area
    pub inode_area_start_block: u32,
    pub inodes: Vec<DiskInode>,
    pub inode_bitmap: Vec<bool>,
    /// the ids of the data blocks that no inode holds
    pub data_free: Vec<u32>,
}

impl EasyFileSystem {
    /// Bitmap and records agree in length, inode 0 (the root directory) is in use,
    /// every id and every record location fits in 32 bits, every record is well formed.
    pub open spec fn wf(&self) -> bool {
        &&& self.inodes@.len() == self.inode_bitmap@.len()
        &&& 1 <= self.inodes@.len() <= u32::MAX
        &&& self.inode_bitmap@[0]
        &&& self.inodes@[0].type_ == DiskInodeType::Directory
        &&& self.inode_area_start_block + self.inodes@.len() / (INODES_PER_BLOCK as nat) <= u32::MAX
        &&& forall|i: int|
            0 <= i < self.inodes@.len() ==> #[trigger] self.inodes@[i].wf_within(
                self.inodes@.len(),
            )
    }

    /// `b` is `a` with the records of `x` and `y` perhaps changed and the bitmap
    /// perhaps changed at those ids only.
    pub open spec fn unchanged_except(a: &EasyFileSystem, b: &EasyFileSystem, x: u32, y: u32) -> bool {
        &&& b.inodes@.len() == a.inodes@.len()
        &&& b.inode_bitmap@.len() == a.inode_bitmap@.len()
        &&& b.inode_area_start_block == a.inode_area_start_block
        &&& forall|j: u32|
            j < a.inodes@.len() && j != x && j != y ==> b.inodes@[j as int] == a.inodes@[j as int]
                && b.inode_bitmap@[j as int] == a.inode_bitmap@[j as int]
    }

    /// `a` and `b` hold the same records, the same bitmap and the same free blocks.
    pub open spec fn same(a: &EasyFileSystem, b: &EasyFileSystem) -> bool {
        &&& b.inodes@ == a.inodes@
        &&& b.inode_bitmap@ == a.inode_bitmap@
        &&& b.data_free@ == a.data_free@
        &&& b.inode_area_start_block == a.inode_area_start_block
    }

    /// Replacing one well-formed record keeps the filesystem well formed.
    pub proof fn lemma_wf_set(a: &EasyFileSystem, b: &EasyFileSystem, x: u32)
        requires
            a.wf(),
            a.valid_id(x),
            b.inodes@ == a.inodes@.update(x as int, b.inodes@[x as int]),
            b.inode_bitmap@ == a.inode_bitmap@,
            b.inode_area_start_block == a.inode_area_start_block,
            x == 0 ==> b.inodes@[0].type_ == DiskInodeType::Directory,
            b.inodes@[x as int].wf_within(a.inodes@.len()),
        ensures
            b.wf(),
    {
        assert forall|i: int| 0 <= i < b.inodes@.len() implies #[trigger] b.inodes@[i].wf_within(
            b.inodes@.len(),
        ) by {
            if i != x {
                assert(a.inodes@[i].wf_within(a.inodes@.len()));
            }
        }
    }

    /// The record of a valid id is well formed.
    pub proof fn lemma_node_wf(&self, x: u32)
        requires
            self.wf(),
            self.valid_id(x),
        ensures
            self.node(x).wf_within(self.inodes@.len()),
            self.node(x).wf(),
    {
        assert(self.inodes@[x as int].wf_within(self.inodes@.len()));
    }

    /// Number of inode records, used or free.
    pub open spec fn capacity(&self) -> int {
        self.inodes@.len() as int
    }

    pub open spec fn valid_id(&self, id: u32) -> bool {
        id < self.inodes@.len()
    }

    pub open spec fn node(&self, id: u32) -> DiskInode {
        self.inodes@[id as int]
    }

    pub open spec fn used(&self, id: u32) -> bool {
        self.inode_bitmap@[id as int]
    }

    /// The entries of the directory `id`, as (name, inode id) pairs.
    pub open spec fn entries_of(&self, id: u32) -> Seq<(Seq<char>, u32)> {
        entries_view(self.inodes@[id as int].entries@)
    }

    /// `id` is the least inode id not in use.
    pub open spec fn is_least_free(&self, id: u32) -> bool {
        &&& id < self.inode_bitmap@.len()
        &&& !self.inode_bitmap@[id as int]
        &&& forall|k: int| 0 <= k < id ==> self.inode_bitmap@[k]
    }

    /// Some inode id is not in use.
    pub open spec fn has_free(&self) -> bool {
        exists|k: int| 0 <= k < self.inode_bitmap@.len() && !self.inode_bitmap@[k]
    }

    /// Where the record of inode `id` lies: its block and its byte offset there.
    pub open spec fn pos_spec(&self, id: u32) -> (u32, usize) {
        (
            (self.inode_area_start_block + id / INODES_PER_BLOCK) as u32,
            ((id % INODES_PER_BLOCK) as usize * DISK_INODE_SZ) as usize,
        )
    }

    /// A filesystem of `capacity` inode records whose only inode in use is the
    /// root directory, id 0, and whose `data_blocks` data blocks, numbered from
    /// `data_area_start_block`, are all free.
    pub fn new(
        inode_area_start_block: u32,
        capacity: u32,
        data_area_start_block: u32,
        data_blocks: u32,
    ) -> (r: EasyFileSystem)
        requires
            1 <= capacity,
            inode_area_start_block + capacity / INODES_PER_BLOCK <= u32::MAX,
            data_area_start_block + data_blocks <= u32::MAX,
        ensures
            r.wf(),
            r.data_free@.len() == data_blocks,
            forall|k: int| 0 <= k < data_blocks ==> r.data_free@[k] == data_area_start_block + k,
            r.capacity() == capacity,
            r.inode_area_start_block == inode_area_start_block,
            r.used(0),
            r.node(0).link == 1,
            r.entries_of(0).len() == 0,
            forall|k: u32| 0 < k < capacity ==> !r.used(k),
            forall|k: u32|
                0 < k < capacity ==> r.node(k).type_ == DiskInodeType::File && r.node(k).link == 0
                    && r.node(k).data@.len() == 0 && r.node(k).entries@.len() == 0,
    {
        let mut inodes: Vec<DiskInode> = Vec::new();
        let mut inode_bitmap: Vec<bool> = Vec::new();
        inodes.push(DiskInode::initialize(DiskInodeType::Directory));
        inode_bitmap.push(true);
        let mut i: u32 = 1;
        while i < capacity
            invariant
                1 <= i <= capacity,
                inodes@.len() == i,
                inode_bitmap@.len() == i,
                inode_bitmap@[0],
                inodes@[0].type_ == DiskInodeType::Directory,
                inodes@[0].link == 1,
                inodes@[0].entries@.len() == 0,
                inodes@[0].data@.len() == 0,
                inodes@[0].blocks@.len() == 0,
                forall|k: int| 0 < k < i ==> !inode_bitmap@[k],
                forall|k: int|
                    0 < k < i ==> inodes@[k].type_ == DiskInodeType::File && inodes@[k].link == 0
                        && inodes@[k].data@.len() == 0 && inodes@[k].entries@.len() == 0
                        && inodes@[k].blocks@.len() == 0,
            decreases capacity - i,
        {
            inodes.push(DiskInode::unused());
            inode_bitmap.push(false);
            i = i + 1;
        }
        let mut data_free: Vec<u32> = Vec::new();
        let mut b: u32 = 0;
        while b < data_blocks
            invariant
                0 <= b <= data_blocks,
                data_area_start_block + data_blocks <= u32::MAX,
                data_free@.len() == b,
                forall|k: int| 0 <= k < b ==> data_free@[k] == data_area_start_block + k,
            decreases data_blocks - b,
        {
            data_free.push(data_area_start_block + b);
            b = b + 1;
        }
        let r = EasyFileSystem { inode_area_start_block, inodes, inode_bitmap, data_free };
        assert forall|k: int| 0 <= k < r.inodes@.len() implies #[trigger] r.inodes@[k].wf_within(
            r.inodes@.len(),
        ) by {}
        r
    }

    /// Where the record of inode `id` lies: its block and its byte offset there.
    pub fn get_disk_inode_pos(&self, id: u32) -> (r: (u32, usize))
        requires
            self.wf(),
            self.valid_id(id),
        ensures
            r == self.pos_spec(id),
    {
        let block = self.inode_area_start_block + id / INODES_PER_BLOCK;
        let offset = (id % INODES_PER_BLOCK) as usize * DISK_INODE_SZ;
        (block, offset)
    }

    /// Take the least free inode id and mark it used; `None` when every id is in use.
    pub fn alloc_inode(&mut self) -> (r: Option<u32>)
        requires
            old(self).wf(),
        ensures
            final(self).wf(),
            final(self).inodes@ == old(self).inodes@,
            final(self).data_free@ == old(self).data_free@,
            final(self).inode_area_start_block == old(self).inode_area_start_block,
            match r {
                Some(id) => old(self).is_least_free(id) && final(self).inode_bitmap@ == old(
                    self,
                ).inode_bitmap@.update(id as int, true),
                None => !old(self).has_free() && final(self).inode_bitmap@ == old(
                    self,
                ).inode_bitmap@,
            },
    {
        let n = self.inode_bitmap.len();
        let mut i: usize = 0;
        while i < n
            invariant
                *self == *old(self),
                old(self).wf(),
                n == self.inode_bitmap@.len(),
                n <= u32::MAX,
                0 <= i <= n,
                forall|k: int| 0 <= k < i ==> self.inode_bitmap@[k],
            decreases n - i,
        {
            if !self.inode_bitmap[i] {
                self.inode_bitmap.set(i, true);
                return Some(i as u32);
            }
            i = i + 1;
        }
        None
    }

    /// Return inode `id` to the pool of free ids.
    pub fn dealloc_inode(&mut self, id: u32)
        requires
            old(self).wf(),
            old(self).valid_id(id),
            id != 0,
        ensures
            final(self).wf(),
            final(self).inodes@ == old(self).inodes@,
            final(self).inode_area_start_block == old(self).inode_area_start_block,
            final(self).inode_bitmap@ == old(self).inode_bitmap@.update(id as int, false),
            final(self).data_free@ == old(self).data_free@,
    {
        self.inode_bitmap.set(id as usize, false);
    }

    /// Take a free data block; the free block taken last is the one returned last.
    pub fn alloc_data(&mut self) -> (r: u32)
        requires
            old(self).wf(),
            old(self).data_free@.len() > 0,
        ensures
            final(self).wf(),
            r == old(self).data_free@.last(),
            final(self).data_free@ == old(self).data_free@.drop_last(),
            final(self).inodes@ == old(self).inodes@,
            final(self).inode_bitmap@ == old(self).inode_bitmap@,
            final(self).inode_area_start_block == old(self).inode_area_start_block,
    {
        self.data_free.pop().unwrap()
    }

    /// Return the data block `block` to the free blocks.
    pub fn dealloc_data(&mut self, block: u32)
        requires
            old(self).wf(),
        ensures
            final(self).wf(),
            final(self).data_free@ == old(self).data_free@.push(block),
            final(self).inodes@ == old(self).inodes@,
            final(self).inode_bitmap@ == old(self).inode_bitmap@,
            final(self).inode_area_start_block == old(self).inode_area_start_block,
    {
        self.data_free.push(block);
    }
}

} // verus!
