# pilatus_aravis

A GenICam camera device for the pilatus framework, built on aravis.

- `src/` is the verified library: feature names and values and the order in
  which features are applied (`genicam`), the description of camera buffers
  (`buffer`), the conversion of buffer parts into images (`image_ext`,
  `single_image`), the combination of multi-part frames and the decisions of
  the acquisition loop (`wrapper`, `builder`), the decisions of the device
  that shares an acquisition between subscribers (`acquisition`), the camera
  status and the listing of cameras (`status`, `device`), and the text the
  library produces (`text`).
- `app/` is the plugin around it: service registration, the aravis camera
  and its acquisition loops, the device actor, the web handlers and the
  serde forms of the configuration.
- `tests/` exercise the library on concrete values.
