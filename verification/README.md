# bbsg_a05

Decision logic of a distribution-grid assessment pipeline, verified with Verus.

- `src/feeder.rs` – feeder ids in load-profile keys (`([A-Z]{3})-([0-9]{2})[VW].*`)
  and the feeder-to-key table, first key winning.
- `src/zone.rs`, `src/engine.rs` – zone factors and classes, and which zone,
  density record and office a transformer takes.
- `src/meter.rs` – meter phases and single/three-phase counts.
- `src/names.rs` – distinct names, office lists, the selected-substation set,
  and the split of province rows.
- `src/watch.rs` – the substations singled out in the load-forecast report.
- `src/web.rs` – the keys, field and rows of the transformer page.
- `src/cache.rs` – tables loaded once and kept.
- `src/scurve.rs` – year offsets of the adoption curves.

`app/` holds the floating-point computations and the outside-world glue.
