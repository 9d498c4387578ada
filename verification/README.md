# herdr_regions

Desktop regions are rectangles of the frame that the host reserves for one
hosted terminal program each, outside any tab's pane tree.

The library in `src/` holds the decisions and is verified with Verus:

- `geometry` subtracts a region from the frame.
- `region` and `state` hold the regions, their size bounds and their slots.
- `ids` numbers regions, panes and terminals, from counters that all sessions of
  a process share.
- `plugin` holds the installed plugins and what their manifests declare.
- `app` closes and focuses regions, `open` launches and places them.
- `opening` and `restore` take turns with the host over a `region.open` request
  and over the regions of a saved session.
- `api` answers the `region.*` requests.
- `laws` states what holds of a session as a whole.

`app/` is the ordinary Rust around it: starting and stopping programs, drawing,
and the stored form of identifiers.
