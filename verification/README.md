# northcloud_oculus

A VR dashboard for the north-cloud crawler: node health from Prometheus, Loki and
Grafana, a live article feed from Redis Pub/Sub, and panels floating in the headset.

The library (`src/`) holds the logic, proved with Verus:

- `health`: log analysis (pattern counts and the health they give).
- `grafana`, `loki`, `prometheus`, `errors`, `labels`: request pieces, response frames,
  grouping of log lines by label set, node ids, HTTP status handling.
- `feed`: the live feed buffer, its configuration, and the subscriber's decisions.
- `interaction`, `markers`, `panels`: trigger edges, hover and selection, detail panel
  bookkeeping, marker styles, the classifier log buffer and panel texts.
- `publisher`: pieces of the development publisher (timestamps, titles, interval).
- `text`: strings, decimal numbers, trimming and splitting.

`app/` is the program around it: Bevy systems, HTTP and Redis I/O, rendering, and the
floating-point geometry.
