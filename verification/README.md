# fulmen

The core of a small game engine: an entity-component-system registry and the
data structures under it, specified and proved with Verus. Two things are left
to the user's types: the key of a component or resource type (`TypeKey`: its
`TypeId` and whether it needs dropping) and the slot that holds a resource value (`ErasedValue`); what a
read of a stored value gives back rests on that slot.

## Layout

- `src/` — the verified library.
  - `bits`, `bitset` — growable bit sets (`BitSetMut`, frozen `BitSet`), their
    bitwise operators and their order.
  - `sparse` — `SparseArray` and `SparseSet`, dense storage addressed by sparse
    indices.
  - `layout` — memory layouts of stored values (`layout_repeat`, `array_layout`).
  - `blob` — type-erased storage of one value (`UnsafeBlob`, `Blob`).
  - `byte_blob` — the raw bytes of one value of a plain type.
  - `type_key` — `TypeId` keys and the association lists that map them to ids.
  - `component`, `bundle` — registries of component, resource and bundle types.
  - `entity` — entity handles and id reservation.
  - `storage`, `world` — resource storage and the `World` that ties it together.
  - `hash` — a hasher for keys that already hold a hash.
  - `device`, `events`, `config` — physical-device selection, the event loop's
    decisions and the application's configuration, on plain values.
- `tests/` — tests run against the compiled library.
- `app/` — the executable: logging, the window and event loop (winit), the
  Vulkan renderer (ash), and what the library decides on the values they report.
