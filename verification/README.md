# bdstorage state store

The state of the deduplicating storage tool lives in a redb database with
three tables: the file index (path -> size, modification time, content
hash), the content index (hash -> reference count) and the vaulted inodes.

`src/` is the verified library (Verus):

* `types` – file metadata, content hashes and their hexadecimal form;
* `codec` – the byte layout of every key and value (metadata through bincode);
* `store` – the tables, the write each operation performs, how reads are
  interpreted, batches, and the laws tying writes to later reads;
* `summary` – the vault summary (tracked paths, shared objects, savings);
* `batcher` – how a queue of operations is cut into write batches;
* `paths` – where the database and the vault objects live.

`app/` opens the database, performs the planned writes and lookups, walks
the vault on disk, drives the queue, and computes the floating-point
deduplication ratio.
