use vstd::prelude::*;
use crate::fs::{
    entries_view, entry_view, is_first_match, lemma_first_match_unique, lemma_without_name_push,
    lookup, read_len, without_name, written, blocks_for, growth, taken, after_taking, lemma_blocks_monotone, DirEntry,
    DiskInode, DiskInodeType, EasyFileSystem, DIRENT_SZ,
};

verus! {

/// Why `create` made no file.
#[derive(Copy, Clone, PartialEq, Eq, Structural, Debug)]
pub enum CreateError {
    /// the directory already has an entry of that name
    AlreadyExists,
    /// every inode id is in use
    NoFreeInode,
}

/// A handle on one inode of an `EasyFileSystem`: where its record lies and its id.
/// Several handles may name the same inode; they share its state only through the
/// filesystem that each call is given.
pub struct Inode {
    /// the block that holds the record
    pub block_id: usize,
    /// the record's byte offset in that block
    pub block_offset: usize,
    pub inode_id: u32,
}

impl Inode {
    /// The handle names inode `id` of `fs`, at the place where its record lies.
    pub open spec fn located(&self, fs: &EasyFileSystem) -> bool {
        &&& fs.valid_id(self.inode_id)
        &&& fs.pos_spec(self.inode_id) == (self.block_id as u32, self.block_offset)
    }

    /// The handle names a directory of `fs` that is in use.
    pub open spec fn is_dir_in(&self, fs: &EasyFileSystem) -> bool {
        &&& fs.valid_id(self.inode_id)
        &&& fs.used(self.inode_id)
        &&& fs.node(self.inode_id).type_ == DiskInodeType::Directory
    }

    /// The handle names a regular file of `fs`.
    pub open spec fn is_file_in(&self, fs: &EasyFileSystem) -> bool {
        &&& fs.valid_id(self.inode_id)
        &&& fs.node(self.inode_id).type_ == DiskInodeType::File
    }

    /// A handle on inode `inode_id`, whose record lies at `block_offset` in block `block_id`.
    pub fn new(block_id: u32, block_offset: usize, inode_id: u32) -> (r: Inode)
        ensures
            r.block_id == block_id as usize,
            r.block_offset == block_offset,
            r.inode_id == inode_id,
    {
        Inode { block_id: block_id as usize, block_offset, inode_id }
    }

    /// Whether the inode is a regular file.
    pub fn is_file(&self, fs: &EasyFileSystem) -> (r: bool)
        requires
            fs.valid_id(self.inode_id),
        ensures
            r == (fs.node(self.inode_id).type_ == DiskInodeType::File),
    {
        fs.inodes[self.inode_id as usize].is_file()
    }

    /// Whether the inode is a directory.
    pub fn is_dir(&self, fs: &EasyFileSystem) -> (r: bool)
        requires
            fs.valid_id(self.inode_id),
        ensures
            r == (fs.node(self.inode_id).type_ == DiskInodeType::Directory),
    {
        fs.inodes[self.inode_id as usize].is_dir()
    }

    /// The inode's link count.
    pub fn link_count(&self, fs: &EasyFileSystem) -> (r: u32)
        requires
            fs.valid_id(self.inode_id),
        ensures
            r == fs.node(self.inode_id).link,
    {
        fs.inodes[self.inode_id as usize].link
    }

    /// The inode id of the first entry of the directory record `disk_inode` named `name`.
    fn find_inode_id(&self, name: &String, disk_inode: &DiskInode) -> (r: Option<u32>)
        requires
            disk_inode.type_ == DiskInodeType::Directory,
        ensures
            r == lookup(entries_view(disk_inode.entries@), name@),
    {
        let ghost es = entries_view(disk_inode.entries@);
        let n = disk_inode.entries.len();
        let mut i: usize = 0;
        while i < n
            invariant
                n == disk_inode.entries@.len(),
                es == entries_view(disk_inode.entries@),
                0 <= i <= n,
                forall|k: int| 0 <= k < i ==> es[k].0 != name@,
            decreases n - i,
        {
            if disk_inode.entries[i].name == *name {
                proof {
                    assert(is_first_match(es, name@, i as int));
                    let j = choose|j: int| is_first_match(es, name@, j);
                    lemma_first_match_unique(es, name@, i as int, j);
                }
                return Some(disk_inode.entries[i].inode_id);
            }
            i = i + 1;
        }
        None
    }

    /// A handle on the inode that the first entry named `name` of this directory
    /// refers to; `None` when no entry has that name.
    pub fn find(&self, fs: &EasyFileSystem, name: &str) -> (r: Option<Inode>)
        requires
            fs.wf(),
            self.is_dir_in(fs),
        ensures
            match r {
                Some(h) => lookup(fs.entries_of(self.inode_id), name@) == Some(h.inode_id)
                    && h.located(fs),
                None => lookup(fs.entries_of(self.inode_id), name@).is_none(),
            },
    {
        let q = name.to_owned();
        let found = self.find_inode_id(&q, &fs.inodes[self.inode_id as usize]);
        match found {
            None => None,
            Some(id) => {
                proof {
                    let es = fs.entries_of(self.inode_id);
                    let j = choose|j: int| is_first_match(es, name@, j);
                    assert(fs.inodes@[self.inode_id as int].wf_within(fs.inodes@.len()));
                    assert(fs.inodes@[self.inode_id as int].entries@[j].inode_id == id);
                }
                let (block_id, block_offset) = fs.get_disk_inode_pos(id);
                Some(Inode::new(block_id, block_offset, id))
            },
        }
    }

    /// Take `count` free data blocks, one at a time, off the end of the free list.
    fn alloc_data_blocks(&self, fs: &mut EasyFileSystem, count: u32) -> (r: Vec<u32>)
        requires
            old(fs).wf(),
            old(fs).data_free@.len() >= count,
        ensures
            final(fs).wf(),
            r@ == taken(old(fs).data_free@, count as int),
            final(fs).data_free@ == after_taking(old(fs).data_free@, count as int),
            final(fs).inodes@ == old(fs).inodes@,
            final(fs).inode_bitmap@ == old(fs).inode_bitmap@,
            final(fs).inode_area_start_block == old(fs).inode_area_start_block,
    {
        let mut v: Vec<u32> = Vec::new();
        let mut i: u32 = 0;
        while i < count
            invariant
                0 <= i <= count,
                v@ == taken(old(fs).data_free@, i as int),
                fs.wf(),
                fs.data_free@ == after_taking(old(fs).data_free@, i as int),
                old(fs).data_free@.len() >= count,
                fs.inodes@ == old(fs).inodes@,
                fs.inode_bitmap@ == old(fs).inode_bitmap@,
                fs.inode_area_start_block == old(fs).inode_area_start_block,
            decreases count - i,
        {
            let b = fs.alloc_data();
            v.push(b);
            i = i + 1;
            assert(v@ =~= taken(old(fs).data_free@, i as int));
            assert(fs.data_free@ =~= after_taking(old(fs).data_free@, i as int));
        }
        v
    }

    /// Append the entry `e` to this directory, first taking from the free list the
    /// data blocks that the larger directory needs.
    fn append_dir_entry(&self, fs: &mut EasyFileSystem, e: DirEntry)
        requires
            old(fs).wf(),
            self.is_dir_in(old(fs)),
            e.inode_id < old(fs).inodes@.len(),
            (old(fs).entries_of(self.inode_id).len() + 1) * DIRENT_SZ <= u32::MAX,
            old(fs).data_free@.len() >= growth(
                    old(fs).entries_of(self.inode_id).len() * DIRENT_SZ,
                    (old(fs).entries_of(self.inode_id).len() + 1) * DIRENT_SZ,
                ),
        ensures
            final(fs).wf(),
            self.is_dir_in(final(fs)),
            final(fs).entries_of(self.inode_id) == old(fs).entries_of(self.inode_id).push(
                entry_view(e),
            ),
            final(fs).node(self.inode_id).blocks@ == old(fs).node(self.inode_id).blocks@ + taken(
                old(fs).data_free@,
                growth(
                    old(fs).entries_of(self.inode_id).len() * DIRENT_SZ,
                    (old(fs).entries_of(self.inode_id).len() + 1) * DIRENT_SZ,
                ),
            ),
            final(fs).data_free@ == after_taking(old(fs).data_free@, growth(
                    old(fs).entries_of(self.inode_id).len() * DIRENT_SZ,
                    (old(fs).entries_of(self.inode_id).len() + 1) * DIRENT_SZ,
                )),
            final(fs).node(self.inode_id).type_ == old(fs).node(self.inode_id).type_,
            final(fs).node(self.inode_id).link == old(fs).node(self.inode_id).link,
            final(fs).node(self.inode_id).data@ == old(fs).node(self.inode_id).data@,
            final(fs).inode_bitmap@ == old(fs).inode_bitmap@,
            EasyFileSystem::unchanged_except(old(fs), final(fs), self.inode_id, self.inode_id),
    {
        let dir = self.inode_id as usize;
        proof {
            fs.lemma_node_wf(self.inode_id);
        }
        let count = fs.inodes[dir].entries.len();
        let needed = fs.inodes[dir].blocks_num_needed(((count + 1) * DIRENT_SZ) as u32);
        let new_blocks = self.alloc_data_blocks(fs, needed);
        proof {
            fs.lemma_node_wf(self.inode_id);
        }
        let ghost fs0 = *fs;
        let ghost es0 = fs.inodes@[dir as int].entries@;
        let ghost ev = entry_view(e);
        fs.inodes[dir].append_entry(e, new_blocks);
        proof {
            assert(entries_view(fs.inodes@[dir as int].entries@) =~= entries_view(es0).push(ev));
            EasyFileSystem::lemma_wf_set(&fs0, fs, self.inode_id);
        }
    }

    /// Create a regular file named `name` in this directory and return a handle
    /// on it. Fails, and changes nothing, with `AlreadyExists` when an entry of
    /// that name is already there, else with `NoFreeInode` when every inode id is
    /// in use. Otherwise the new file takes the least free inode id, has one link
    /// and no content, and its entry is appended to the directory.
    pub fn create(&self, fs: &mut EasyFileSystem, name: &str) -> (r: Result<Inode, CreateError>)
        requires
            old(fs).wf(),
            self.is_dir_in(old(fs)),
            lookup(old(fs).entries_of(self.inode_id), name@).is_none() ==> (old(fs).entries_of(
                self.inode_id,
            ).len() + 1) * DIRENT_SZ <= u32::MAX,
            lookup(old(fs).entries_of(self.inode_id), name@).is_none() ==> old(
                fs,
            ).data_free@.len() >= growth(
                    old(fs).entries_of(self.inode_id).len() * DIRENT_SZ,
                    (old(fs).entries_of(self.inode_id).len() + 1) * DIRENT_SZ,
                ),
        ensures
            final(fs).wf(),
            r is Err ==> EasyFileSystem::same(old(fs), final(fs)),
            match r {
                Err(CreateError::AlreadyExists) => lookup(
                    old(fs).entries_of(self.inode_id),
                    name@,
                ).is_some(),
                Err(CreateError::NoFreeInode) => lookup(
                    old(fs).entries_of(self.inode_id),
                    name@,
                ).is_none() && !old(fs).has_free(),
                Ok(h) => {
                    &&& lookup(old(fs).entries_of(self.inode_id), name@).is_none()
                    &&& h.located(final(fs))
                    &&& old(fs).is_least_free(h.inode_id)
                    &&& final(fs).inode_bitmap@ == old(fs).inode_bitmap@.update(
                        h.inode_id as int,
                        true,
                    )
                    &&& final(fs).node(h.inode_id).type_ == DiskInodeType::File
                    &&& final(fs).node(h.inode_id).link == 1
                    &&& final(fs).node(h.inode_id).data@.len() == 0
                    &&& final(fs).node(h.inode_id).entries@.len() == 0
                    &&& final(fs).entries_of(self.inode_id) == old(fs).entries_of(
                        self.inode_id,
                    ).push((name@, h.inode_id))
                    &&& final(fs).node(self.inode_id).type_ == old(fs).node(self.inode_id).type_
                    &&& final(fs).node(self.inode_id).link == old(fs).node(self.inode_id).link
                    &&& final(fs).node(self.inode_id).data@ == old(fs).node(self.inode_id).data@
                    &&& final(fs).node(self.inode_id).blocks@ == old(fs).node(
                        self.inode_id,
                    ).blocks@ + taken(old(fs).data_free@, growth(
                    old(fs).entries_of(self.inode_id).len() * DIRENT_SZ,
                    (old(fs).entries_of(self.inode_id).len() + 1) * DIRENT_SZ,
                ))
                    &&& final(fs).data_free@ == after_taking(old(fs).data_free@, growth(
                    old(fs).entries_of(self.inode_id).len() * DIRENT_SZ,
                    (old(fs).entries_of(self.inode_id).len() + 1) * DIRENT_SZ,
                ))
                    &&& EasyFileSystem::unchanged_except(old(fs), final(fs), self.inode_id, h.inode_id)
                },
            },
    {
        let q = name.to_owned();
        let dir = self.inode_id as usize;
        if self.find_inode_id(&q, &fs.inodes[dir]).is_some() {
            return Err(CreateError::AlreadyExists);
        }
        let new_inode_id = match fs.alloc_inode() {
            None => {
                return Err(CreateError::NoFreeInode);
            },
            Some(id) => id,
        };
        let ghost fs1 = *fs;
        fs.inodes.set(new_inode_id as usize, DiskInode::initialize(DiskInodeType::File));
        proof {
            EasyFileSystem::lemma_wf_set(&fs1, fs, new_inode_id);
            fs.lemma_node_wf(self.inode_id);
        }
        proof {
            fs.lemma_node_wf(self.inode_id);
        }
        self.append_dir_entry(fs, DirEntry { name: q, inode_id: new_inode_id });
        let (block_id, block_offset) = fs.get_disk_inode_pos(new_inode_id);
        let h = Inode::new(block_id, block_offset, new_inode_id);
        Ok(h)
    }

    /// The names of this directory's entries, in storage order.
    pub fn ls(&self, fs: &EasyFileSystem) -> (r: Vec<String>)
        requires
            fs.valid_id(self.inode_id),
        ensures
            r@.len() == fs.entries_of(self.inode_id).len(),
            forall|k: int| 0 <= k < r@.len() ==> r@[k]@ == fs.entries_of(self.inode_id)[k].0,
    {
        let entries = &fs.inodes[self.inode_id as usize].entries;
        let mut v: Vec<String> = Vec::new();
        let n = entries.len();
        let mut i: usize = 0;
        while i < n
            invariant
                n == entries@.len(),
                *entries == fs.inodes@[self.inode_id as int].entries,
                0 <= i <= n,
                v@.len() == i,
                forall|k: int| 0 <= k < i ==> v@[k]@ == entries@[k].name@,
            decreases n - i,
        {
            v.push(entries[i].name.clone());
            i = i + 1;
        }
        v
    }

    /// Copy the file's content at `offset` into the front of `buf`; return how
    /// many bytes were copied, which is less than `buf`'s length near or past the end.
    pub fn read_at(&self, fs: &EasyFileSystem, offset: usize, buf: &mut Vec<u8>) -> (r: usize)
        requires
            self.is_file_in(fs),
        ensures
            r == read_len(fs.node(self.inode_id).data@.len() as int, offset as int, old(buf)@.len() as int),
            final(buf)@.len() == old(buf)@.len(),
            forall|k: int| 0 <= k < r ==> final(buf)@[k] == fs.node(self.inode_id).data@[offset + k],
            forall|k: int| r <= k < old(buf)@.len() ==> final(buf)@[k] == old(buf)@[k],
    {
        fs.inodes[self.inode_id as usize].read_at(offset, buf)
    }

    /// Write `buf` into the file at `offset`, first growing the file so that the
    /// write fits (the bytes between its old end and `offset` become zero); return
    /// how many bytes were written.
    pub fn write_at(&self, fs: &mut EasyFileSystem, offset: usize, buf: &[u8]) -> (r: usize)
        requires
            old(fs).wf(),
            self.is_file_in(old(fs)),
            offset + buf@.len() <= u32::MAX,
            old(fs).data_free@.len() >= growth(
                old(fs).node(self.inode_id).data@.len() as int,
                offset + buf@.len(),
            ),
        ensures
            final(fs).wf(),
            r == buf@.len(),
            final(fs).node(self.inode_id).blocks@ == old(fs).node(self.inode_id).blocks@ + taken(
                old(fs).data_free@,
                growth(old(fs).node(self.inode_id).data@.len() as int, offset + buf@.len()),
            ),
            final(fs).data_free@ == after_taking(
                old(fs).data_free@,
                growth(old(fs).node(self.inode_id).data@.len() as int, offset + buf@.len()),
            ),
            final(fs).node(self.inode_id).data@ == written(
                old(fs).node(self.inode_id).data@,
                offset as int,
                buf@,
            ),
            final(fs).node(self.inode_id).type_ == old(fs).node(self.inode_id).type_,
            final(fs).node(self.inode_id).link == old(fs).node(self.inode_id).link,
            final(fs).node(self.inode_id).entries@ == old(fs).node(self.inode_id).entries@,
            final(fs).inode_bitmap@ == old(fs).inode_bitmap@,
            EasyFileSystem::unchanged_except(old(fs), final(fs), self.inode_id, self.inode_id),
    {
        proof {
            fs.lemma_node_wf(self.inode_id);
        }
        let idx = self.inode_id as usize;
        let needed = fs.inodes[idx].blocks_num_needed((offset + buf.len()) as u32);
        let new_blocks = self.alloc_data_blocks(fs, needed);
        proof {
            fs.lemma_node_wf(self.inode_id);
        }
        let ghost fs0 = *fs;
        let n = fs.inodes[idx].write_at(offset, buf, new_blocks);
        proof {
            EasyFileSystem::lemma_wf_set(&fs0, fs, self.inode_id);
        }
        n
    }

    /// Drop the inode's content: its size becomes zero.
    pub fn clear(&self, fs: &mut EasyFileSystem)
        requires
            old(fs).wf(),
            old(fs).valid_id(self.inode_id),
        ensures
            final(fs).wf(),
            final(fs).data_free@ == old(fs).data_free@ + old(fs).node(self.inode_id).blocks@,
            final(fs).data_free@.len() == old(fs).data_free@.len() + blocks_for(
                old(fs).node(self.inode_id).size_spec(),
            ),
            final(fs).node(self.inode_id).data@.len() == 0,
            final(fs).node(self.inode_id).entries@.len() == 0,
            final(fs).node(self.inode_id).type_ == old(fs).node(self.inode_id).type_,
            final(fs).node(self.inode_id).link == old(fs).node(self.inode_id).link,
            final(fs).inode_bitmap@ == old(fs).inode_bitmap@,
            EasyFileSystem::unchanged_except(old(fs), final(fs), self.inode_id, self.inode_id),
    {
        proof {
            fs.lemma_node_wf(self.inode_id);
        }
        let ghost fs0 = *fs;
        let freed = fs.inodes[self.inode_id as usize].clear_size();
        proof {
            EasyFileSystem::lemma_wf_set(&fs0, fs, self.inode_id);
        }
        let ghost fs1 = *fs;
        let n = freed.len();
        let mut i: usize = 0;
        while i < n
            invariant
                n == freed@.len(),
                0 <= i <= n,
                fs.wf(),
                fs.data_free@ == fs1.data_free@ + freed@.subrange(0, i as int),
                fs.inodes@ == fs1.inodes@,
                fs.inode_bitmap@ == fs1.inode_bitmap@,
                fs.inode_area_start_block == fs1.inode_area_start_block,
            decreases n - i,
        {
            fs.dealloc_data(freed[i]);
            i = i + 1;
            assert(fs.data_free@ =~= fs1.data_free@ + freed@.subrange(0, i as int));
        }
        assert(freed@.subrange(0, n as int) =~= freed@);
    }

    /// The id of the inode this handle names.
    pub fn inode_id(&self) -> (r: u32)
        ensures
            r == self.inode_id,
    {
        self.inode_id
    }

    /// Add one to the inode's link count.
    pub fn increment_link(&self, fs: &mut EasyFileSystem)
        requires
            old(fs).wf(),
            old(fs).valid_id(self.inode_id),
            old(fs).node(self.inode_id).link < u32::MAX,
        ensures
            final(fs).wf(),
            final(fs).node(self.inode_id).link == old(fs).node(self.inode_id).link + 1,
            final(fs).node(self.inode_id).type_ == old(fs).node(self.inode_id).type_,
            final(fs).node(self.inode_id).data@ == old(fs).node(self.inode_id).data@,
            final(fs).node(self.inode_id).entries@ == old(fs).node(self.inode_id).entries@,
            final(fs).inode_bitmap@ == old(fs).inode_bitmap@,
            final(fs).data_free@ == old(fs).data_free@,
            final(fs).node(self.inode_id).blocks@ == old(fs).node(self.inode_id).blocks@,
            EasyFileSystem::unchanged_except(old(fs), final(fs), self.inode_id, self.inode_id),
    {
        proof {
            fs.lemma_node_wf(self.inode_id);
        }
        let ghost fs0 = *fs;
        let idx = self.inode_id as usize;
        fs.inodes[idx].link = fs.inodes[idx].link + 1;
        proof {
            EasyFileSystem::lemma_wf_set(&fs0, fs, self.inode_id);
        }
    }

    /// Take one from the inode's link count.
    pub fn decrement_link(&self, fs: &mut EasyFileSystem)
        requires
            old(fs).wf(),
            old(fs).valid_id(self.inode_id),
            old(fs).node(self.inode_id).link > 0,
        ensures
            final(fs).wf(),
            final(fs).node(self.inode_id).link == old(fs).node(self.inode_id).link - 1,
            final(fs).node(self.inode_id).type_ == old(fs).node(self.inode_id).type_,
            final(fs).node(self.inode_id).data@ == old(fs).node(self.inode_id).data@,
            final(fs).node(self.inode_id).entries@ == old(fs).node(self.inode_id).entries@,
            final(fs).inode_bitmap@ == old(fs).inode_bitmap@,
            final(fs).data_free@ == old(fs).data_free@,
            final(fs).node(self.inode_id).blocks@ == old(fs).node(self.inode_id).blocks@,
            EasyFileSystem::unchanged_except(old(fs), final(fs), self.inode_id, self.inode_id),
    {
        proof {
            fs.lemma_node_wf(self.inode_id);
        }
        let ghost fs0 = *fs;
        let idx = self.inode_id as usize;
        fs.inodes[idx].link = fs.inodes[idx].link - 1;
        proof {
            EasyFileSystem::lemma_wf_set(&fs0, fs, self.inode_id);
        }
    }

    /// Append an entry `new_name` for the inode of `file_inode` to this directory
    /// and add one to that inode's link count. No check is made against the names
    /// already there.
    pub fn link(&self, fs: &mut EasyFileSystem, new_name: String, file_inode: &Inode)
        requires
            old(fs).wf(),
            self.is_dir_in(old(fs)),
            old(fs).valid_id(file_inode.inode_id),
            (old(fs).entries_of(self.inode_id).len() + 1) * DIRENT_SZ <= u32::MAX,
            old(fs).data_free@.len() >= growth(
                old(fs).entries_of(self.inode_id).len() * DIRENT_SZ,
                (old(fs).entries_of(self.inode_id).len() + 1) * DIRENT_SZ,
            ),
            old(fs).node(file_inode.inode_id).link < u32::MAX,
        ensures
            final(fs).wf(),
            final(fs).entries_of(self.inode_id) == old(fs).entries_of(self.inode_id).push(
                (new_name@, file_inode.inode_id),
            ),
            final(fs).node(file_inode.inode_id).link == old(fs).node(file_inode.inode_id).link + 1,
            file_inode.inode_id != self.inode_id ==> final(fs).node(self.inode_id).link == old(
                fs,
            ).node(self.inode_id).link,
            file_inode.inode_id != self.inode_id ==> final(fs).node(file_inode.inode_id).entries@
                == old(fs).node(file_inode.inode_id).entries@,
            final(fs).node(self.inode_id).type_ == old(fs).node(self.inode_id).type_,
            final(fs).node(self.inode_id).data@ == old(fs).node(self.inode_id).data@,
            final(fs).node(file_inode.inode_id).type_ == old(fs).node(file_inode.inode_id).type_,
            final(fs).node(file_inode.inode_id).data@ == old(fs).node(file_inode.inode_id).data@,
            final(fs).inode_bitmap@ == old(fs).inode_bitmap@,
            final(fs).node(self.inode_id).blocks@ == old(fs).node(self.inode_id).blocks@ + taken(
                old(fs).data_free@,
                growth(
                    old(fs).entries_of(self.inode_id).len() * DIRENT_SZ,
                    (old(fs).entries_of(self.inode_id).len() + 1) * DIRENT_SZ,
                ),
            ),
            final(fs).data_free@ == after_taking(old(fs).data_free@, growth(
                    old(fs).entries_of(self.inode_id).len() * DIRENT_SZ,
                    (old(fs).entries_of(self.inode_id).len() + 1) * DIRENT_SZ,
                )),
            EasyFileSystem::unchanged_except(old(fs), final(fs), self.inode_id, file_inode.inode_id),
    {
        self.append_dir_entry(fs, DirEntry { name: new_name, inode_id: file_inode.inode_id });
        file_inode.increment_link(fs);
    }

    /// Remove every entry named `name` from this directory, rewriting the others
    /// in their order, and take one from the link count of `file_inode`'s inode.
    /// When that count reaches zero the inode's content is dropped, its blocks are
    /// freed and its id returns to the pool of free ids.
    pub fn unlink(&self, fs: &mut EasyFileSystem, name: String, file_inode: &Inode)
        requires
            old(fs).wf(),
            self.is_dir_in(old(fs)),
            old(fs).valid_id(file_inode.inode_id),
            file_inode.inode_id == 0 ==> old(fs).node(0).link > 1,
            old(fs).node(file_inode.inode_id).link > 0,
        ensures
            final(fs).wf(),
            final(fs).node(file_inode.inode_id).link == old(fs).node(file_inode.inode_id).link - 1,
            final(fs).entries_of(self.inode_id) == if old(fs).node(file_inode.inode_id).link == 1
                && file_inode.inode_id == self.inode_id {
                Seq::empty()
            } else {
                without_name(old(fs).entries_of(self.inode_id), name@)
            },
            final(fs).data_free@.len() == old(fs).data_free@.len() + blocks_for(
                old(fs).entries_of(self.inode_id).len() * DIRENT_SZ,
            ) - blocks_for(
                without_name(old(fs).entries_of(self.inode_id), name@).len() * DIRENT_SZ,
            ) + if old(fs).node(file_inode.inode_id).link > 1 {
                0
            } else if file_inode.inode_id == self.inode_id {
                blocks_for(without_name(old(fs).entries_of(self.inode_id), name@).len() * DIRENT_SZ)
            } else {
                blocks_for(old(fs).node(file_inode.inode_id).size_spec())
            },
            old(fs).node(file_inode.inode_id).link == 1 && file_inode.inode_id != self.inode_id
                ==> final(fs).data_free@.subrange(
                final(fs).data_free@.len() - old(fs).node(file_inode.inode_id).blocks@.len(),
                final(fs).data_free@.len() as int,
            ) == old(fs).node(file_inode.inode_id).blocks@,
            old(fs).node(file_inode.inode_id).link == 1 ==> {
                &&& final(fs).node(file_inode.inode_id).data@.len() == 0
                &&& final(fs).node(file_inode.inode_id).blocks@.len() == 0
                &&& final(fs).node(file_inode.inode_id).entries@.len() == 0
                &&& final(fs).inode_bitmap@ == old(fs).inode_bitmap@.update(
                    file_inode.inode_id as int,
                    false,
                )
            },
            old(fs).node(file_inode.inode_id).link > 1 ==> {
                &&& final(fs).inode_bitmap@ == old(fs).inode_bitmap@
                &&& file_inode.inode_id != self.inode_id ==> final(fs).node(
                    file_inode.inode_id,
                ).data@ == old(fs).node(file_inode.inode_id).data@
                &&& file_inode.inode_id != self.inode_id ==> final(fs).node(
                    file_inode.inode_id,
                ).entries@ == old(fs).node(file_inode.inode_id).entries@
            },
            file_inode.inode_id != self.inode_id ==> final(fs).node(self.inode_id).link == old(
                fs,
            ).node(self.inode_id).link,
            final(fs).node(self.inode_id).type_ == old(fs).node(self.inode_id).type_,
            final(fs).node(file_inode.inode_id).type_ == old(fs).node(file_inode.inode_id).type_,
            EasyFileSystem::unchanged_except(old(fs), final(fs), self.inode_id, file_inode.inode_id),
    {
        let dir = self.inode_id as usize;
        proof {
            fs.lemma_node_wf(self.inode_id);
        }
        let ghost fs0 = *fs;
        let ghost es = fs.entries_of(self.inode_id);
        let mut kept: Vec<DirEntry> = Vec::new();
        let n = fs.inodes[dir].entries.len();
        let mut i: usize = 0;
        while i < n
            invariant
                *fs == fs0,
                fs0.wf(),
                self.is_dir_in(&fs0),
                dir == self.inode_id,
                n == fs.inodes@[dir as int].entries@.len(),
                es == entries_view(fs.inodes@[dir as int].entries@),
                0 <= i <= n,
                kept@.len() <= i,
                entries_view(kept@) == without_name(es.subrange(0, i as int), name@),
                forall|k: int| 0 <= k < kept@.len() ==> kept@[k].inode_id < fs.inodes@.len(),
            decreases n - i,
        {
            proof {
                fs.lemma_node_wf(self.inode_id);
                lemma_without_name_push(es.subrange(0, i as int), es[i as int], name@);
                assert(es.subrange(0, i as int + 1) =~= es.subrange(0, i as int).push(es[i as int]));
            }
            let e = &fs.inodes[dir].entries[i];
            if !(e.name == name) {
                let ghost kv = entries_view(kept@);
                kept.push(DirEntry { name: e.name.clone(), inode_id: e.inode_id });
                assert(entries_view(kept@) =~= kv.push(es[i as int]));
            }
            i = i + 1;
        }
        assert(es.subrange(0, n as int) =~= es);
        self.clear(fs);
        let ghost fs1 = *fs;
        let m = kept.len();
        let mut j: usize = 0;
        while j < m
            invariant
                fs.wf(),
                fs0.wf(),
                self.is_dir_in(&fs0),
                dir == self.inode_id,
                m == kept@.len(),
                m <= n,
                n * DIRENT_SZ <= u32::MAX,
                n == es.len(),
                0 <= j <= m,
                forall|k: int| 0 <= k < kept@.len() ==> kept@[k].inode_id < fs0.inodes@.len(),
                fs1.data_free@.len() == fs0.data_free@.len() + blocks_for(n * DIRENT_SZ),
                fs.data_free@.len() == fs1.data_free@.len() - blocks_for(j * DIRENT_SZ),
                entries_view(fs.inodes@[dir as int].entries@) == entries_view(kept@).subrange(
                    0,
                    j as int,
                ),
                fs.inodes@[dir as int].type_ == fs0.inodes@[dir as int].type_,
                fs.inodes@[dir as int].link == fs0.inodes@[dir as int].link,
                fs.inode_bitmap@ == fs0.inode_bitmap@,
                EasyFileSystem::unchanged_except(&fs0, fs, self.inode_id, self.inode_id),
            decreases m - j,
        {
            proof {
                fs.lemma_node_wf(self.inode_id);
                lemma_blocks_monotone(j * DIRENT_SZ, (j + 1) * DIRENT_SZ);
                lemma_blocks_monotone((j + 1) * DIRENT_SZ, n * DIRENT_SZ);
            }
            let entry = DirEntry { name: kept[j].name.clone(), inode_id: kept[j].inode_id };
            self.append_dir_entry(fs, entry);
            assert(entries_view(kept@).subrange(0, j as int + 1) =~= entries_view(kept@).subrange(
                0,
                j as int,
            ).push(entry_view(kept@[j as int])));
            j = j + 1;
        }
        assert(entries_view(kept@).subrange(0, m as int) =~= entries_view(kept@));
        file_inode.decrement_link(fs);
        if file_inode.link_count(fs) == 0 {
            let ghost fs3 = *fs;
            file_inode.clear(fs);
            fs.dealloc_inode(file_inode.inode_id);
            proof {
                let k = fs3.node(file_inode.inode_id).blocks@.len();
                assert(fs.data_free@.subrange(
                    fs.data_free@.len() - k,
                    fs.data_free@.len() as int,
                ) =~= fs3.node(file_inode.inode_id).blocks@);
                fs.lemma_node_wf(file_inode.inode_id);
            }
        }
    }
}

} // verus!
