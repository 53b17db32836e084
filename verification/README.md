# metaverse

The logic of a metaverse chain's pallets as a verified library: land units,
estates and undeployed land blocks; the continuum's auction slot rotation;
country tokens; the weights of calls; and the node's choice of chain
specification.

- `src/table.rs`: a keyed table, the in-memory form of a storage map, viewed
  as a finite `Map`.
- `src/types.rs`: identifiers, owners, blocks, estates, origins and errors.
- `src/estate.rs`: the estate pallet. Its storage is viewed as an
  `EstateState`; every call keeps `state_inv` and either succeeds or leaves
  the storage as it was. The services the runtime provides (NFT classes and
  tokens, auctions) come through the `Config` trait, whose spec functions
  say what the runtime holds; land units and estates are held by whoever
  holds their tokens.
- `src/supply.rs`: the count of undeployed land units is the sum of the
  blocks' units, kept by every change to the blocks.
- `src/geometry.rs`: the bound checks on land unit coordinates, and the
  check that an estate's coordinates leave no gap on either axis.
- `src/encoding.rs`: token metadata and attributes, and account derivation.
- `src/continuum.rs`, `src/tokenization.rs`: the continuum and tokenization
  pallets.
- `src/weights/`: the weights of calls, saturating.
- `src/node.rs`: which chain specification an identifier names, and the
  node's defaults.

Laws relating several calls are public proof functions named `law_*`.
