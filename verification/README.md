# sweeten

A horizontal row of widgets whose items can be reordered by dragging, with
the decisions of the drag proved correct by Verus.

- `src/widget/drag.rs`: the drag events, the displacement of neighbours while
  an item is dragged, and the proof that this preview is exactly the reorder
  that the drop asks for.
- `src/widget/row.rs`: the row (children, sizing strategy, drag handler), the
  slot a cursor points at, and the reaction of the row to each pointer event,
  with the laws of a drag's life.
- `app/`: the `iced` widget around it: layout, drawing, animations and the
  clock, which work on floating-point geometry.
