#!/usr/bin/env python3
"""Print the late-move-reduction step table of src/lmr.rs.

The reduction of a late quiet move is the whole part of
    0.75 + ln(depth) * ln(move_count) / 2.25
(0 where that is not a positive number). For each depth 0..=255 and each
k in 1..=15 the table holds the smallest move count in 1..=255 whose reduction
is at least k, or 256 when no such count exists.
"""
import math

STEPS = 15


def reduction(depth, count):
    try:
        x = 0.75 + math.log(depth) * math.log(count) / 2.25
    except ValueError:
        return 0
    if x != x or x <= 0:
        return 0
    return min(int(x), 255)


def main():
    rows = []
    for depth in range(256):
        row = []
        for k in range(1, STEPS + 1):
            first = 256
            for count in range(1, 256):
                if depth >= 2 and reduction(depth, count) >= k:
                    first = count
                    break
            row.append(first)
        rows.append(row)
    for depth, row in enumerate(rows):
        print("    " + ", ".join(str(v) for v in row) + ",  // depth %d" % depth)


if __name__ == "__main__":
    main()
